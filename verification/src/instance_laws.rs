//! What the command line of a process means for an instance: which words count as switches, what they say of the
//! data and the proxy, and when a process passes for the instance's own.
use vstd::prelude::*;
use vstd::string::*;
use crate::error::{Error, Result};
use crate::instance_process::{InstanceRelation, InstanceTarget, Member, ProcessRole, ProxyArguments, Reading, SwitchesView, Template, classification, equals_at, family, inspection, proxy_told, reading, scheme_at, switch_body, switch_parts, switches_of, told_switches, trimmed, trimmed_back, trimmed_front, whitespace, word_read};
use crate::model::{Endpoint, FileIdentity, ProcessIdentity, ProcessView};
use crate::text;

verus! {

/// The part of a word from `a` to `b` is what is left of it without the white space around.
pub open spec fn core_of(word: Seq<char>, a: int, b: int) -> bool {
    &&& 0 <= a <= b <= word.len()
    &&& forall|k: int| 0 <= k < a ==> whitespace(#[trigger] word[k])
    &&& forall|k: int| b <= k < word.len() ==> whitespace(#[trigger] word[k])
    &&& a < b ==> !whitespace(word[a]) && !whitespace(word[b - 1])
}

/// White space around a word does not count.
pub proof fn words_are_read_without_the_space_around(word: Seq<char>)
    ensures
        exists|a: int, b: int| #[trigger] core_of(word, a, b) && trimmed(word) == word.subrange(a, b),
        forall|a: int, b: int| #[trigger] core_of(word, a, b) ==> trimmed(word) == word.subrange(a, b),
{
    back_is(word);
    let end = trimmed_back(word).len() as int;
    let front = trimmed_back(word);
    front_is(front);
    let start = front.len() - trimmed_front(front).len();
    assert(trimmed(word) =~= word.subrange(start, end));
    assert(core_of(word, start, end)) by {
        assert forall|k: int| 0 <= k < start implies whitespace(#[trigger] word[k]) by {
            assert(front[k] == word[k]);
        }
        if start < end {
            assert(front[start] == word[start]);
        }
    }
    assert forall|a: int, b: int| #[trigger] core_of(word, a, b) implies trimmed(word) == word.subrange(a, b) by {
        if a < b {
            assert(end >= b) by {
                if end < b {
                    assert(whitespace(word[b - 1]));
                }
            }
            assert(end <= b) by {
                if end > b {
                    assert(!whitespace(word[end - 1]));
                    assert(whitespace(word[end - 1]));
                }
            }
            if start > a {
                assert(whitespace(word[a]));
            }
            if start < a {
                assert(whitespace(word[start]));
            }
        } else {
            if start < end {
                assert(!whitespace(word[start]));
                if start < a {
                    assert(whitespace(word[start]));
                } else {
                    assert(whitespace(word[start]));
                }
            }
            assert(trimmed(word) =~= word.subrange(a, b));
        }
    }
}

proof fn back_is(t: Seq<char>)
    ensures
        trimmed_back(t).len() <= t.len(),
        trimmed_back(t) == t.take(trimmed_back(t).len() as int),
        trimmed_back(t).len() > 0 ==> !whitespace(t[trimmed_back(t).len() - 1]),
        forall|k: int| trimmed_back(t).len() <= k < t.len() ==> whitespace(#[trigger] t[k]),
    decreases t.len(),
{
    if t.len() > 0 && whitespace(t.last()) {
        let shorter = t.drop_last();
        back_is(shorter);
        let n = trimmed_back(t).len() as int;
        assert(t.take(n) =~= shorter.take(n));
        assert forall|k: int| n <= k < t.len() implies whitespace(#[trigger] t[k]) by {
            if k < t.len() - 1 {
                assert(whitespace(shorter[k]));
            }
        }
        if n > 0 {
            assert(shorter[n - 1] == t[n - 1]);
        }
    } else {
        assert(t.take(t.len() as int) =~= t);
    }
}

proof fn front_is(t: Seq<char>)
    ensures
        trimmed_front(t).len() <= t.len(),
        trimmed_front(t) == t.skip(t.len() - trimmed_front(t).len()),
        trimmed_front(t).len() > 0 ==> !whitespace(t[t.len() - trimmed_front(t).len()]),
        forall|k: int| 0 <= k < t.len() - trimmed_front(t).len() ==> whitespace(#[trigger] t[k]),
    decreases t.len(),
{
    if t.len() > 0 && whitespace(t[0]) {
        let rest = t.drop_first();
        front_is(rest);
        let n = trimmed_front(t).len() as int;
        assert(t.skip(t.len() - n) =~= rest.skip(rest.len() - n));
        assert forall|k: int| 0 <= k < t.len() - n implies whitespace(#[trigger] t[k]) by {
            if k > 0 {
                assert(whitespace(rest[k - 1]));
            }
        }
        if n > 0 {
            assert(rest[rest.len() - n] == t[t.len() - n]);
        }
    } else {
        assert(t.skip(0) =~= t);
    }
}

/// How many dashes or slashes make the text from `a` to `b` a switch: two dashes, one dash, or a slash.
pub open spec fn dashes(word: Seq<char>, a: int, b: int) -> int {
    if b - a >= 2 && word[a] == '-' && word[a + 1] == '-' {
        2
    } else if b - a >= 1 && (word[a] == '-' || word[a] == '/') {
        1
    } else {
        0
    }
}

/// A word is the switch `name` with `value`, its parts told by their places: what counts of it lies from `a` to `b`,
/// its name ends at `e`.
pub open spec fn switch_at(
    word: Seq<char>,
    name: Seq<char>,
    value: Seq<char>,
    a: int,
    b: int,
    e: int,
) -> bool {
    let d = dashes(word, a, b);
    &&& core_of(word, a, b) && d > 0 && a + d <= e <= b
    &&& forall|k: int| a + d <= k < e ==> #[trigger] word[k] != '='
    &&& text::same_folded(word.subrange(a + d, e), name)
    &&& if e < b {
        word[e] == '=' && value == word.subrange(e + 1, b)
    } else {
        value.len() == 0
    }
}

/// A word is the switch `name` with `value`: `--name=value`, `-name=value` or `/name=value`, the name in any case,
/// the value empty where there is no equals sign.
pub open spec fn is_switch(word: Option<Seq<char>>, name: Seq<char>, value: Seq<char>) -> bool {
    word is Some && exists|a: int, b: int, e: int| #[trigger] switch_at(word->0, name, value, a, b, e)
}

/// A word is the switch `name`, whatever its value.
pub open spec fn names_switch(word: Option<Seq<char>>, name: Seq<char>) -> bool {
    exists|value: Seq<char>| #[trigger] is_switch(word, name, value)
}

/// A word that ends the switches: two dashes.
pub open spec fn ends_switches(word: Option<Seq<char>>) -> bool {
    word is Some && exists|a: int| #[trigger] two_dashes(word->0, a)
}

/// What counts of a word are two dashes at `a`.
pub open spec fn two_dashes(word: Seq<char>, a: int) -> bool {
    core_of(word, a, a + 2) && word[a] == '-' && word[a + 1] == '-'
}

/// A switch that points away from one fixed proxy.
pub open spec fn turns_proxy_away(word: Option<Seq<char>>) -> bool {
    names_switch(word, "proxy-pac-url"@) || names_switch(word, "proxy-auto-detect"@) || names_switch(
        word,
        "proxy-bypass-list"@,
    ) || names_switch(word, "no-proxy-server"@)
}

spec fn parts_of(word: Seq<char>) -> Option<(Seq<char>, Seq<char>)> {
    match switch_body(trimmed(word)) {
        None => None,
        Some(body) => Some(switch_parts(body)),
    }
}

proof fn equals_is(t: Seq<char>)
    ensures
        0 <= equals_at(t) <= t.len(),
        equals_at(t) < t.len() ==> t[equals_at(t)] == '=',
        forall|k: int| 0 <= k < equals_at(t) ==> #[trigger] t[k] != '=',
    decreases t.len(),
{
    if t.len() > 0 && t[0] != '=' {
        let rest = t.drop_first();
        equals_is(rest);
        let n = equals_at(t);
        if n < t.len() {
            assert(rest[n - 1] == t[n]);
        }
        assert forall|k: int| 0 <= k < n implies #[trigger] t[k] != '=' by {
            if k > 0 {
                assert(rest[k - 1] == t[k]);
            }
        }
    }
}

proof fn switch_reads(word: Seq<char>, name: Seq<char>, value: Seq<char>)
    requires
        text::folded(name) == name,
    ensures
        is_switch(Some(word), name, value) <==> parts_of(word) == Some((name, value)),
{
    words_are_read_without_the_space_around(word);
    let t = trimmed(word);
    if is_switch(Some(word), name, value) {
        let (a, b, e) = choose|a: int, b: int, e: int| #[trigger] switch_at(word, name, value, a, b, e);
        let d = dashes(word, a, b);
        assert(t == word.subrange(a, b));
        assert(t[0] == word[a]);
        if b - a >= 2 {
            assert(t[1] == word[a + 1]);
        }
        let body = t.skip(d);
        assert(switch_body(t) == Some(body));
        equals_is(body);
        let n = e - a - d;
        assert(body =~= word.subrange(a + d, b));
        let at = equals_at(body);
        if at < n {
            assert(word[a + d + at] != '=');
        }
        if at > n {
            assert(body[n] == word[e]);
        }
        assert(at == n);
        if n < body.len() {
            assert(body.take(n) =~= word.subrange(a + d, e));
            assert(body.skip(n + 1) =~= word.subrange(e + 1, b));
        } else {
            assert(body =~= word.subrange(a + d, e));
            assert(value =~= Seq::empty());
        }
    }
    if parts_of(word) == Some((name, value)) {
        let (a, b) = choose|a: int, b: int| #[trigger] core_of(word, a, b) && t == word.subrange(a, b);
        let d = dashes(word, a, b);
        assert(t.len() == b - a);
        if b - a >= 1 {
            assert(t[0] == word[a]);
        }
        if b - a >= 2 {
            assert(t[1] == word[a + 1]);
        }
        let body = switch_body(t)->0;
        assert(d > 0 && body == t.skip(d));
        equals_is(body);
        let e = a + d + equals_at(body);
        assert(body =~= word.subrange(a + d, b));
        assert forall|k: int| a + d <= k < e implies #[trigger] word[k] != '=' by {
            assert(body[k - a - d] == word[k]);
        }
        let n = equals_at(body);
        if n < body.len() {
            assert(body[n] == word[e]);
            assert(body.take(n) =~= word.subrange(a + d, e));
            assert(body.skip(n + 1) =~= word.subrange(e + 1, b));
        } else {
            assert(body =~= word.subrange(a + d, e));
        }
        assert(switch_at(Some(word)->0, name, value, a, b, e));
    }
}

proof fn end_reads(word: Seq<char>)
    ensures
        ends_switches(Some(word)) <==> trimmed(word) == "--"@,
{
    reveal_strlit("--");
    words_are_read_without_the_space_around(word);
    let t = trimmed(word);
    if ends_switches(Some(word)) {
        let a = choose|a: int| #[trigger] two_dashes(Some(word)->0, a);
        assert(core_of(word, a, a + 2));
        assert(t =~= "--"@);
    }
    if t == "--"@ {
        let (a, b) = choose|a: int, b: int| #[trigger] core_of(word, a, b) && t == word.subrange(a, b);
        assert(t.len() == b - a);
        assert(t[0] == word[a] && t[1] == word[a + 1]);
        assert(b == a + 2);
        assert(two_dashes(Some(word)->0, a));
    }
}

proof fn names_are_small()
    ensures
        text::folded("proxy-pac-url"@) == "proxy-pac-url"@,
        text::folded("proxy-auto-detect"@) == "proxy-auto-detect"@,
        text::folded("proxy-bypass-list"@) == "proxy-bypass-list"@,
        text::folded("no-proxy-server"@) == "no-proxy-server"@,
        text::folded("proxy-server"@) == "proxy-server"@,
        text::folded("user-data-dir"@) == "user-data-dir"@,
        text::folded("type"@) == "type"@,
        text::folded("single-argument"@) == "single-argument"@,
{
    reveal_strlit("proxy-pac-url");
    reveal_strlit("proxy-auto-detect");
    reveal_strlit("proxy-bypass-list");
    reveal_strlit("no-proxy-server");
    reveal_strlit("proxy-server");
    reveal_strlit("user-data-dir");
    reveal_strlit("type");
    reveal_strlit("single-argument");
    assert(text::folded("proxy-pac-url"@) =~= "proxy-pac-url"@);
    assert(text::folded("proxy-auto-detect"@) =~= "proxy-auto-detect"@);
    assert(text::folded("proxy-bypass-list"@) =~= "proxy-bypass-list"@);
    assert(text::folded("no-proxy-server"@) =~= "no-proxy-server"@);
    assert(text::folded("proxy-server"@) =~= "proxy-server"@);
    assert(text::folded("user-data-dir"@) =~= "user-data-dir"@);
    assert(text::folded("type"@) =~= "type"@);
    assert(text::folded("single-argument"@) =~= "single-argument"@);
}

proof fn names_differ()
    ensures
        "proxy-server"@.len() == 12 && "user-data-dir"@.len() == 13 && "type"@.len() == 4,
        "single-argument"@.len() == 15 && "single-argument"@[0] == 's',
        "proxy-pac-url"@.len() == 13 && "proxy-pac-url"@[0] == 'p' && "user-data-dir"@[0] == 'u',
        "proxy-auto-detect"@.len() == 17 && "proxy-bypass-list"@.len() == 17,
        "no-proxy-server"@.len() == 15 && "no-proxy-server"@[0] == 'n',
{
    reveal_strlit("proxy-pac-url");
    reveal_strlit("proxy-auto-detect");
    reveal_strlit("proxy-bypass-list");
    reveal_strlit("no-proxy-server");
    reveal_strlit("proxy-server");
    reveal_strlit("user-data-dir");
    reveal_strlit("type");
    reveal_strlit("single-argument");
}

/// What the words from the first up to word `m` say, in a command line that can be judged.
pub open spec fn told_by(words: Seq<Option<Seq<char>>>, m: int, s: SwitchesView) -> bool {
    &&& match s.proxy_server {
        Some(value) => exists|k: int|
            1 <= k < m && #[trigger] is_switch(words[k], "proxy-server"@, value) && forall|j: int|
                k < j < m ==> !names_switch(#[trigger] words[j], "proxy-server"@),
        None => forall|k: int| 1 <= k < m ==> !names_switch(#[trigger] words[k], "proxy-server"@),
    }
    &&& s.proxy_conflict <==> ((exists|k: int| 1 <= k < m && #[trigger] turns_proxy_away(words[k])) || (
    exists|k: int, j: int|
        1 <= k < j < m && #[trigger] names_switch(words[k], "proxy-server"@) && #[trigger] names_switch(
            words[j],
            "proxy-server"@,
        )))
    &&& match s.user_data {
        Some(value) => value.len() > 0 && exists|k: int|
            1 <= k < m && #[trigger] is_switch(words[k], "user-data-dir"@, value),
        None => forall|k: int| 1 <= k < m ==> !names_switch(#[trigger] words[k], "user-data-dir"@),
    }
    &&& match s.process_type {
        Some(value) => exists|k: int| 1 <= k < m && #[trigger] is_switch(words[k], "type"@, value),
        None => forall|k: int| 1 <= k < m ==> !names_switch(#[trigger] words[k], "type"@),
    }
}

/// A command line that cannot be judged by its words up to word `m`: one of them is no text or holds a terminator,
/// hides the rest of the line, names an empty directory, or names a directory or a type a second time.
pub open spec fn unjudgeable(words: Seq<Option<Seq<char>>>, m: int) -> bool {
    exists|k: int| 1 <= k < m && #[trigger] spoils(words, k)
}

/// A word that makes its command line one that cannot be judged.
pub open spec fn spoils(words: Seq<Option<Seq<char>>>, k: int) -> bool {
    ||| words[k] is None
    ||| words[k]->0.contains('\0')
    ||| names_switch(words[k], "single-argument"@)
    ||| is_switch(words[k], "user-data-dir"@, Seq::empty())
    ||| exists|j: int|
        1 <= j < k && #[trigger] names_switch(words[j], "user-data-dir"@) && names_switch(
            words[k],
            "user-data-dir"@,
        )
    ||| exists|j: int|
        1 <= j < k && #[trigger] names_switch(words[j], "type"@) && names_switch(words[k], "type"@)
}

/// What a word says: the name of a switch, in small letters, and its value.
spec fn said(word: Option<Seq<char>>) -> Option<(Seq<char>, Seq<char>)> {
    match word {
        None => None,
        Some(text) => parts_of(text),
    }
}

spec fn said_name(word: Option<Seq<char>>) -> Option<Seq<char>> {
    match said(word) {
        None => None,
        Some((name, _)) => Some(name),
    }
}

spec fn away(word: Option<Seq<char>>) -> bool {
    said_name(word) == Some("proxy-pac-url"@) || said_name(word) == Some("proxy-auto-detect"@) || said_name(word)
        == Some("proxy-bypass-list"@) || said_name(word) == Some("no-proxy-server"@)
}

proof fn said_is(word: Option<Seq<char>>, name: Seq<char>)
    requires
        text::folded(name) == name,
    ensures
        forall|value: Seq<char>| #[trigger] is_switch(word, name, value) <==> said(word) == Some((name, value)),
        names_switch(word, name) <==> said_name(word) == Some(name),
{
    assert forall|value: Seq<char>| #[trigger] is_switch(word, name, value) <==> said(word) == Some((name, value)) by {
        if word is Some {
            switch_reads(word->0, name, value);
        }
    }
    if said_name(word) == Some(name) {
        assert(is_switch(word, name, (said(word)->0).1));
    }
}

proof fn word_means(word: Option<Seq<char>>)
    ensures
        forall|value: Seq<char>| #[trigger] is_switch(word, "proxy-server"@, value) <==> said(word) == Some(("proxy-server"@, value)),
        names_switch(word, "proxy-server"@) <==> said_name(word) == Some("proxy-server"@),
        forall|value: Seq<char>| #[trigger] is_switch(word, "user-data-dir"@, value) <==> said(word) == Some(("user-data-dir"@, value)),
        names_switch(word, "user-data-dir"@) <==> said_name(word) == Some("user-data-dir"@),
        forall|value: Seq<char>| #[trigger] is_switch(word, "type"@, value) <==> said(word) == Some(("type"@, value)),
        names_switch(word, "type"@) <==> said_name(word) == Some("type"@),
        names_switch(word, "single-argument"@) <==> said_name(word) == Some("single-argument"@),
        turns_proxy_away(word) <==> away(word),
{
    names_are_small();
    said_is(word, "proxy-server"@);
    said_is(word, "user-data-dir"@);
    said_is(word, "type"@);
    said_is(word, "single-argument"@);
    said_is(word, "proxy-pac-url"@);
    said_is(word, "proxy-auto-detect"@);
    said_is(word, "proxy-bypass-list"@);
    said_is(word, "no-proxy-server"@);
}

spec fn server_said(words: Seq<Option<Seq<char>>>, m: int, server: Option<Seq<char>>) -> bool {
    match server {
        Some(value) => exists|k: int|
            1 <= k < m && #[trigger] said(words[k]) == Some(("proxy-server"@, value)) && forall|j: int|
                k < j < m ==> said_name(#[trigger] words[j]) != Some("proxy-server"@),
        None => forall|k: int| 1 <= k < m ==> said_name(#[trigger] words[k]) != Some("proxy-server"@),
    }
}

spec fn conflict_said(words: Seq<Option<Seq<char>>>, m: int) -> bool {
    (exists|k: int| 1 <= k < m && #[trigger] away(words[k])) || (exists|k: int, j: int|
        1 <= k < j < m && #[trigger] said_name(words[k]) == Some("proxy-server"@) && #[trigger] said_name(words[j])
            == Some("proxy-server"@))
}

spec fn once_said(words: Seq<Option<Seq<char>>>, m: int, name: Seq<char>, told: Option<Seq<char>>) -> bool {
    match told {
        Some(value) => exists|k: int| 1 <= k < m && #[trigger] said(words[k]) == Some((name, value)),
        None => forall|k: int| 1 <= k < m ==> said_name(#[trigger] words[k]) != Some(name),
    }
}

spec fn told_said(words: Seq<Option<Seq<char>>>, m: int, s: SwitchesView) -> bool {
    &&& server_said(words, m, s.proxy_server)
    &&& s.proxy_conflict <==> conflict_said(words, m)
    &&& once_said(words, m, "user-data-dir"@, s.user_data) && (s.user_data is Some ==> s.user_data->0.len() > 0)
    &&& once_said(words, m, "type"@, s.process_type)
}

spec fn spoils_said(words: Seq<Option<Seq<char>>>, k: int) -> bool {
    ||| words[k] is None
    ||| words[k]->0.contains('\0')
    ||| said_name(words[k]) == Some("single-argument"@)
    ||| said(words[k]) == Some(("user-data-dir"@, Seq::<char>::empty()))
    ||| exists|j: int|
        1 <= j < k && #[trigger] said_name(words[j]) == Some("user-data-dir"@) && said_name(words[k]) == Some(
            "user-data-dir"@,
        )
    ||| exists|j: int|
        1 <= j < k && #[trigger] said_name(words[j]) == Some("type"@) && said_name(words[k]) == Some("type"@)
}

proof fn spoiling_is(words: Seq<Option<Seq<char>>>, k: int)
    ensures
        spoils(words, k) <==> spoils_said(words, k),
{
    word_means(words[k]);
    assert forall|j: int| #[trigger] names_switch(words[j], "user-data-dir"@) <==> said_name(words[j]) == Some("user-data-dir"@) by {
        word_means(words[j]);
    }
    assert forall|j: int| #[trigger] names_switch(words[j], "type"@) <==> said_name(words[j]) == Some("type"@) by {
        word_means(words[j]);
    }
    if spoils_said(words, k) {
        if exists|j: int|
            1 <= j < k && #[trigger] said_name(words[j]) == Some("user-data-dir"@) && said_name(words[k]) == Some(
                "user-data-dir"@,
            ) {
            let j = choose|j: int|
                1 <= j < k && #[trigger] said_name(words[j]) == Some("user-data-dir"@) && said_name(words[k])
                    == Some("user-data-dir"@);
            assert(names_switch(words[j], "user-data-dir"@));
        }
        if exists|j: int|
            1 <= j < k && #[trigger] said_name(words[j]) == Some("type"@) && said_name(words[k]) == Some("type"@) {
            let j = choose|j: int|
                1 <= j < k && #[trigger] said_name(words[j]) == Some("type"@) && said_name(words[k]) == Some(
                    "type"@,
                );
            assert(names_switch(words[j], "type"@));
        }
    }
}

proof fn telling_is(words: Seq<Option<Seq<char>>>, m: int, s: SwitchesView)
    requires
        told_said(words, m, s),
    ensures
        told_by(words, m, s),
{
    assert forall|j: int| #[trigger] names_switch(words[j], "proxy-server"@) <==> said_name(words[j]) == Some("proxy-server"@) by {
        word_means(words[j]);
    }
    assert forall|j: int| #[trigger] names_switch(words[j], "user-data-dir"@) <==> said_name(words[j]) == Some("user-data-dir"@) by {
        word_means(words[j]);
    }
    assert forall|j: int| #[trigger] names_switch(words[j], "type"@) <==> said_name(words[j]) == Some("type"@) by {
        word_means(words[j]);
    }
    assert forall|j: int| #[trigger] turns_proxy_away(words[j]) <==> away(words[j]) by {
        word_means(words[j]);
    }
    if s.proxy_server is Some {
        let value = s.proxy_server->0;
        let k = choose|k: int|
            1 <= k < m && #[trigger] said(words[k]) == Some(("proxy-server"@, value)) && forall|j: int|
                k < j < m ==> said_name(#[trigger] words[j]) != Some("proxy-server"@);
        word_means(words[k]);
        assert(is_switch(words[k], "proxy-server"@, value));
    }
    if s.user_data is Some {
        let k = choose|k: int|
            1 <= k < m && #[trigger] said(words[k]) == Some(("user-data-dir"@, s.user_data->0));
        word_means(words[k]);
        assert(is_switch(words[k], "user-data-dir"@, s.user_data->0));
    }
    if s.process_type is Some {
        let k = choose|k: int| 1 <= k < m && #[trigger] said(words[k]) == Some(("type"@, s.process_type->0));
        word_means(words[k]);
        assert(is_switch(words[k], "type"@, s.process_type->0));
    }
    if s.proxy_conflict {
        if exists|k: int| 1 <= k < m && #[trigger] away(words[k]) {
            let k = choose|k: int| 1 <= k < m && #[trigger] away(words[k]);
            assert(turns_proxy_away(words[k]));
        } else {
            let (k, j) = choose|k: int, j: int|
                1 <= k < j < m && #[trigger] said_name(words[k]) == Some("proxy-server"@) && #[trigger] said_name(
                    words[j],
                ) == Some("proxy-server"@);
            assert(names_switch(words[k], "proxy-server"@) && names_switch(words[j], "proxy-server"@));
        }
    }
}

proof fn terminators_count(word: Seq<char>)
    ensures
        trimmed(word).contains('\0') <==> word.contains('\0'),
{
    words_are_read_without_the_space_around(word);
    let (a, b) = choose|a: int, b: int| #[trigger] core_of(word, a, b) && trimmed(word) == word.subrange(a, b);
    if word.contains('\0') {
        let k = choose|k: int| 0 <= k < word.len() && word[k] == '\0';
        assert(!whitespace(word[k]));
        assert(a <= k < b);
        assert(trimmed(word)[k - a] == '\0');
    }
    if trimmed(word).contains('\0') {
        let k = choose|k: int| 0 <= k < trimmed(word).len() && trimmed(word)[k] == '\0';
        assert(word[k + a] == '\0');
    }
}

proof fn reading_means(words: Seq<Option<Seq<char>>>, n: int)
    requires
        1 <= n <= words.len(),
        forall|k: int| 1 <= k < n ==> !ends_switches(#[trigger] words[k]),
    ensures
        match reading(words, n) {
            Reading::Going(s) => told_said(words, n, s) && forall|k: int|
                1 <= k < n ==> !#[trigger] spoils_said(words, k),
            Reading::Refused => exists|k: int| 1 <= k < n && #[trigger] spoils_said(words, k),
            Reading::Ended(_) => false,
        },
    decreases n,
{
    if n > 1 {
        reading_means(words, n - 1);
        let word = words[n - 1];
        match reading(words, n - 1) {
            Reading::Going(s) => {
                if word is None {
                    assert(spoils_said(words, n - 1));
                } else {
                    terminators_count(word->0);
                    end_reads(word->0);
                    assert(!ends_switches(words[n - 1]));
                    one_more(words, n, s);
                }
            },
            _ => {},
        }
    }
}

proof fn conflict_grows(words: Seq<Option<Seq<char>>>, n: int, s: SwitchesView)
    requires
        1 < n <= words.len(),
        server_said(words, n - 1, s.proxy_server),
    ensures
        conflict_said(words, n) <==> conflict_said(words, n - 1) || away(words[n - 1]) || (s.proxy_server is Some
            && said_name(words[n - 1]) == Some("proxy-server"@)),
{
    let m = n - 1;
    if conflict_said(words, m) {
        if exists|k: int| 1 <= k < m && #[trigger] away(words[k]) {
            let k = choose|k: int| 1 <= k < m && #[trigger] away(words[k]);
            assert(1 <= k < n && away(words[k]));
        } else {
            let (k, j) = choose|k: int, j: int|
                1 <= k < j < m && #[trigger] said_name(words[k]) == Some("proxy-server"@) && #[trigger] said_name(
                    words[j],
                ) == Some("proxy-server"@);
            assert(1 <= k < j < n && said_name(words[k]) == Some("proxy-server"@) && said_name(words[j]) == Some(
                "proxy-server"@,
            ));
        }
    }
    if s.proxy_server is Some && said_name(words[m]) == Some("proxy-server"@) {
        let value = s.proxy_server->0;
        let k = choose|k: int|
            1 <= k < m && #[trigger] said(words[k]) == Some(("proxy-server"@, value)) && forall|j: int|
                k < j < m ==> said_name(#[trigger] words[j]) != Some("proxy-server"@);
        assert(said_name(words[k]) == Some("proxy-server"@));
    }
    if conflict_said(words, n) {
        if exists|k: int| 1 <= k < n && #[trigger] away(words[k]) {
            let k = choose|k: int| 1 <= k < n && #[trigger] away(words[k]);
            if k < m {
                assert(conflict_said(words, m));
            }
        } else {
            let (k, j) = choose|k: int, j: int|
                1 <= k < j < n && #[trigger] said_name(words[k]) == Some("proxy-server"@) && #[trigger] said_name(
                    words[j],
                ) == Some("proxy-server"@);
            if j < m {
                assert(conflict_said(words, m));
            } else {
                assert(words[j] == words[m]);
                if s.proxy_server is None {
                    assert(said_name(words[k]) != Some("proxy-server"@));
                }
            }
        }
    }
}

proof fn once_grows(words: Seq<Option<Seq<char>>>, n: int, name: Seq<char>, told: Option<Seq<char>>)
    requires
        1 < n <= words.len(),
        once_said(words, n - 1, name, told),
    ensures
        said_name(words[n - 1]) != Some(name) ==> once_said(words, n, name, told),
        forall|value: Seq<char>|
            said(words[n - 1]) == Some((name, value)) ==> #[trigger] once_said(words, n, name, Some(value)),
{
    let m = n - 1;
    if said_name(words[m]) != Some(name) {
        match told {
            Some(value) => {
                let k = choose|k: int| 1 <= k < m && #[trigger] said(words[k]) == Some((name, value));
                assert(1 <= k < n && said(words[k]) == Some((name, value)));
            },
            None => {
                assert forall|k: int| 1 <= k < n implies said_name(#[trigger] words[k]) != Some(name) by {
                    if k == m {
                        assert(words[k] == words[m]);
                    }
                }
            },
        }
    }
    assert forall|value: Seq<char>| said(words[m]) == Some((name, value)) implies #[trigger] once_said(words, n, name, Some(value)) by {
        assert(1 <= m < n && said(words[m]) == Some((name, value)));
    }
}

proof fn one_more(words: Seq<Option<Seq<char>>>, n: int, s: SwitchesView)
    requires
        1 < n <= words.len(),
        words[n - 1] is Some,
        told_said(words, n - 1, s),
        trimmed(words[n - 1]->0) != "--"@,
        trimmed(words[n - 1]->0).contains('\0') <==> words[n - 1]->0.contains('\0'),
    ensures
        match word_read(s, words[n - 1]) {
            Reading::Going(after) => told_said(words, n, after) && !spoils_said(words, n - 1),
            Reading::Refused => spoils_said(words, n - 1),
            Reading::Ended(_) => false,
        },
{
    names_differ();
    let word = words[n - 1];
    let m = n - 1;
    match word_read(s, word) {
        Reading::Going(after) => {
            if s.proxy_server is Some {
                let value = s.proxy_server->0;
                let k = choose|k: int|
                    1 <= k < m && #[trigger] said(words[k]) == Some(("proxy-server"@, value)) && forall|j: int|
                        k < j < m ==> said_name(#[trigger] words[j]) != Some("proxy-server"@);
                assert(said_name(words[k]) == Some("proxy-server"@));
                if said_name(word) == Some("proxy-server"@) {
                    assert(said_name(words[m]) == Some("proxy-server"@));
                }
            }
            if s.user_data is Some {
                let k = choose|k: int|
                    1 <= k < m && #[trigger] said(words[k]) == Some(("user-data-dir"@, s.user_data->0));
                assert(said_name(words[k]) == Some("user-data-dir"@));
            }
            if s.process_type is Some {
                let k = choose|k: int|
                    1 <= k < m && #[trigger] said(words[k]) == Some(("type"@, s.process_type->0));
                assert(said_name(words[k]) == Some("type"@));
            }
            assert(said(words[m]) == said(word));
            if said_name(word) == Some("proxy-server"@) {
                assert(said(words[m]) == Some(("proxy-server"@, (said(word)->0).1)));
                assert(server_said(words, n, after.proxy_server));
            } else if s.proxy_server is Some {
                let value = s.proxy_server->0;
                let k = choose|k: int|
                    1 <= k < m && #[trigger] said(words[k]) == Some(("proxy-server"@, value)) && forall|j: int|
                        k < j < m ==> said_name(#[trigger] words[j]) != Some("proxy-server"@);
                assert forall|j: int| k < j < n implies said_name(#[trigger] words[j]) != Some("proxy-server"@) by {
                    if j == m {
                        assert(words[j] == word);
                    }
                }
                assert(said(words[k]) == Some(("proxy-server"@, value)));
                assert(server_said(words, n, after.proxy_server));
            } else {
                assert forall|k: int| 1 <= k < n implies said_name(#[trigger] words[k]) != Some("proxy-server"@) by {
                    if k == m {
                        assert(words[k] == word);
                    }
                }
                assert(server_said(words, n, after.proxy_server));
            }
            conflict_grows(words, n, s);
            if away(word) {
                assert(away(words[m]));
            }
            assert(after.proxy_conflict == conflict_said(words, n));
            once_grows(words, n, "user-data-dir"@, s.user_data);
            once_grows(words, n, "type"@, s.process_type);
            assert(once_said(words, n, "user-data-dir"@, after.user_data));
            assert(once_said(words, n, "type"@, after.process_type));
            assert(told_said(words, n, after));
            assert(!spoils_said(words, m));
        },
        _ => {
            if s.user_data is Some {
                let k = choose|k: int|
                    1 <= k < m && #[trigger] said(words[k]) == Some(("user-data-dir"@, s.user_data->0));
                assert(said_name(words[k]) == Some("user-data-dir"@));
            }
            if s.process_type is Some {
                let k = choose|k: int|
                    1 <= k < m && #[trigger] said(words[k]) == Some(("type"@, s.process_type->0));
                assert(said_name(words[k]) == Some("type"@));
            }
            if said(word) is Some {
                let value = (said(word)->0).1;
                if value.len() == 0 {
                    assert(value =~= Seq::<char>::empty());
                }
            }
        },
    }
}

/// The switches of a command line end at word `m`: at the first word that is two dashes, or with the line.
pub open spec fn switches_end(words: Seq<Option<Seq<char>>>, m: int) -> bool {
    1 <= m <= words.len() && (m < words.len() ==> ends_switches(words[m])) && forall|k: int|
        1 <= k < m ==> !ends_switches(#[trigger] words[k])
}

proof fn ending(words: Seq<Option<Seq<char>>>, m: int)
    requires
        switches_end(words, m),
        m < words.len(),
        reading(words, m) is Going,
    ensures
        reading(words, words.len() as int) == Reading::Ended(reading(words, m)->Going_0),
{
    end_reads(words[m]->0);
    terminators_count(words[m]->0);
    reveal_strlit("--");
    assert(!trimmed(words[m]->0).contains('\0')) by {
        if trimmed(words[m]->0).contains('\0') {
            let k = choose|k: int| 0 <= k < trimmed(words[m]->0).len() && trimmed(words[m]->0)[k] == '\0';
            assert("--"@[k] == '-');
        }
    }
    assert(reading(words, m + 1) == Reading::Ended(reading(words, m)->Going_0));
    stays(words, m + 1, words.len() as int);
}

proof fn stays(words: Seq<Option<Seq<char>>>, n: int, m: int)
    requires
        1 <= n <= m,
        !(reading(words, n) is Going),
    ensures
        reading(words, m) == reading(words, n),
    decreases m,
{
    if m > n {
        stays(words, n, m - 1);
    }
}

/// A command line is judged by the words behind the program's name and before two dashes, by all of them and by
/// nothing else. It cannot be judged if one of them makes it so; otherwise its directory, its type and its proxy are
/// those that the words name.
pub proof fn switches_say_what_the_words_say(words: Seq<Option<Seq<char>>>, m: int)
    requires
        switches_end(words, m),
        words[0] != Some(Seq::<char>::empty()),
    ensures
        match switches_of(words) {
            Some(s) => told_by(words, m, s) && !unjudgeable(words, m),
            None => unjudgeable(words, m),
        },
{
    reading_means(words, m);
    assert forall|k: int| #[trigger] spoils(words, k) <==> spoils_said(words, k) by {
        spoiling_is(words, k);
    }
    match reading(words, m) {
        Reading::Going(s) => {
            telling_is(words, m, s);
            if m < words.len() {
                ending(words, m);
            }
        },
        Reading::Refused => {
            stays(words, m, words.len() as int);
            let k = choose|k: int| 1 <= k < m && #[trigger] spoils_said(words, k);
            assert(spoils(words, k));
        },
        _ => {},
    }
}

/// A process whose command line points away from one fixed proxy, by any word that counts, does not use the
/// instance's proxy, whatever else the line says.
pub proof fn other_proxy_settings_never_match(
    words: Seq<Option<Seq<char>>>,
    m: int,
    k: int,
    parsed: Option<Endpoint>,
    endpoint: Endpoint,
)
    requires
        switches_end(words, m),
        1 <= k < m,
        turns_proxy_away(words[k]),
    ensures
        proxy_told(switches_of(words), parsed, endpoint) == if switches_of(words) is Some {
            ProxyArguments::Mismatched
        } else {
            ProxyArguments::Unknown
        },
{
    if words[0] != Some(Seq::<char>::empty()) {
        switches_say_what_the_words_say(words, m);
    }
}

/// The first `://` of a text stands at `p`.
pub open spec fn scheme_ends(t: Seq<char>, p: int) -> bool {
    0 <= p && p + 3 <= t.len() && t[p] == ':' && t[p + 1] == '/' && t[p + 2] == '/' && forall|k: int|
        0 <= k < p ==> !(#[trigger] t[k] == ':' && t[k + 1] == '/' && t[k + 2] == '/')
}

proof fn scheme_is(t: Seq<char>)
    ensures
        match scheme_at(t) {
            Some(p) => scheme_ends(t, p),
            None => forall|p: int| !#[trigger] scheme_ends(t, p),
        },
        forall|p: int| #[trigger] scheme_ends(t, p) ==> scheme_at(t) == Some(p),
    decreases t.len(),
{
    if t.len() >= 3 && !(t[0] == ':' && t[1] == '/' && t[2] == '/') {
        let rest = t.drop_first();
        scheme_is(rest);
        match scheme_at(rest) {
            Some(q) => {
                assert forall|k: int| 0 <= k < q + 1 implies !(#[trigger] t[k] == ':' && t[k + 1] == '/' && t[k + 2]
                    == '/') by {
                    if k > 0 {
                        assert(rest[k - 1] == t[k]);
                    }
                }
                assert(scheme_ends(t, q + 1));
            },
            None => {},
        }
        assert forall|p: int| #[trigger] scheme_ends(t, p) implies scheme_at(t) == Some(p) by {
            assert(p != 0);
            assert forall|k: int| 0 <= k < p - 1 implies !(#[trigger] rest[k] == ':' && rest[k + 1] == '/' && rest[k
                + 2] == '/') by {
                assert(t[k + 1] == rest[k]);
            }
            assert(scheme_ends(rest, p - 1));
        }
    } else if t.len() >= 3 {
        assert(scheme_ends(t, 0));
        assert forall|p: int| #[trigger] scheme_ends(t, p) implies p == 0 by {
            if p > 0 {
                assert(t[0] == ':');
            }
        }
    }
}

/// A text that names one plain proxy: not empty, no list, and `http` or no scheme before its address.
pub open spec fn plain_proxy(value: Seq<char>) -> bool {
    &&& value.len() > 0
    &&& forall|i: int|
        0 <= i < value.len() ==> #[trigger] value[i] != ';' && value[i] != ',' && value[i] != '=' && value[i] != ' '
            && value[i] != '@'
    &&& forall|p: int| #[trigger] scheme_ends(value, p) ==> text::same_folded(value.take(p), "http"@)
}

proof fn direct_is_no_http(value: Seq<char>)
    requires
        text::same_folded(value, "direct://"@),
    ensures
        !plain_proxy(value),
{
    reveal_strlit("direct://");
    reveal_strlit("http");
    let f = text::folded(value);
    assert(f.len() == 9 && f[6] == ':' && f[7] == '/' && f[8] == '/' && f[0] == 'd');
    assert(value[6] == ':' && value[7] == '/' && value[8] == '/') by {
        assert(f[6] == text::ascii_lower(value[6]) && f[7] == text::ascii_lower(value[7]) && f[8]
            == text::ascii_lower(value[8]));
    }
    assert forall|k: int| 0 <= k < 6 implies !(#[trigger] value[k] == ':' && value[k + 1] == '/' && value[k + 2]
        == '/') by {
        assert(f[k] == text::ascii_lower(value[k]));
        assert(f[k] == "direct://"@[k]);
    }
    assert(scheme_ends(value, 6));
    if text::same_folded(value.take(6), "http"@) {
        assert(text::folded(value.take(6)).len() == 6);
        assert(text::folded("http"@).len() == 4);
    }
}

/// A command line tells of the instance's proxy exactly if it can be judged, names one proxy server and only one,
/// points nowhere else, names it plainly, and the address of it is the instance's.
pub proof fn a_matching_proxy_is_the_only_one(
    words: Seq<Option<Seq<char>>>,
    m: int,
    parsed: Option<Endpoint>,
    endpoint: Endpoint,
)
    requires
        switches_end(words, m),
        words[0] != Some(Seq::<char>::empty()),
    ensures
        proxy_told(switches_of(words), parsed, endpoint) == ProxyArguments::Matching <==> (!unjudgeable(words, m)
            && parsed == Some(endpoint) && (forall|k: int| 1 <= k < m ==> !#[trigger] turns_proxy_away(words[k]))
            && exists|k: int, value: Seq<char>|
            1 <= k < m && #[trigger] is_switch(words[k], "proxy-server"@, value) && plain_proxy(value)
                && forall|j: int| 1 <= j < m && j != k ==> !names_switch(#[trigger] words[j], "proxy-server"@)),
{
    switches_say_what_the_words_say(words, m);
    let told = proxy_told(switches_of(words), parsed, endpoint);
    if switches_of(words) is Some {
        let s = switches_of(words)->0;
        if s.proxy_server is Some {
            scheme_is(s.proxy_server->0);
            reveal_strlit("http");
            assert(text::same_folded("http"@, "http"@));
            if text::same_folded(s.proxy_server->0, "direct://"@) {
                direct_is_no_http(s.proxy_server->0);
            }
        }
        if told == ProxyArguments::Matching {
            let value = s.proxy_server->0;
            let k = choose|k: int|
                1 <= k < m && #[trigger] is_switch(words[k], "proxy-server"@, value) && forall|j: int|
                    k < j < m ==> !names_switch(#[trigger] words[j], "proxy-server"@);
            assert(names_switch(words[k], "proxy-server"@));
            assert(plain_proxy(value)) by {
                assert forall|i: int| 0 <= i < value.len() implies #[trigger] value[i] != ';' && value[i] != ','
                    && value[i] != '=' && value[i] != ' ' && value[i] != '@' by {}
            }
            assert(is_switch(words[k], "proxy-server"@, value) && plain_proxy(value));
        }
        if parsed == Some(endpoint) && (forall|k: int| 1 <= k < m ==> !#[trigger] turns_proxy_away(words[k]))
            && exists|k: int, value: Seq<char>|
            1 <= k < m && #[trigger] is_switch(words[k], "proxy-server"@, value) && plain_proxy(value)
                && forall|j: int| 1 <= j < m && j != k ==> !names_switch(#[trigger] words[j], "proxy-server"@) {
            let (k, value) = choose|k: int, value: Seq<char>|
                1 <= k < m && #[trigger] is_switch(words[k], "proxy-server"@, value) && plain_proxy(value)
                    && forall|j: int|
                    1 <= j < m && j != k ==> !names_switch(#[trigger] words[j], "proxy-server"@);
            assert(names_switch(words[k], "proxy-server"@));
            word_means(words[k]);
            assert(s.proxy_server is Some);
            let other = choose|other: int|
                1 <= other < m && #[trigger] is_switch(words[other], "proxy-server"@, s.proxy_server->0)
                    && forall|j: int| other < j < m ==> !names_switch(#[trigger] words[j], "proxy-server"@);
            assert(names_switch(words[other], "proxy-server"@));
            assert(other == k);
            assert(s.proxy_server == Some(value));
            assert(!s.proxy_conflict);
            assert(told == ProxyArguments::Matching);
        }
    }
}

/// Types of processes that help a main process.
pub open spec fn helper_type(kind: Seq<char>) -> bool {
    kind == "renderer"@ || kind == "gpu-process"@ || kind == "utility"@ || kind == "zygote"@ || kind
        == "crashpad-handler"@
}

/// What a command line that can be judged tells of a process, by what it names. A process without a type is a main
/// one, one of the known types a helper. An isolated instance's own process is the one that names the instance's very
/// directory; one that names another, and a main process that names none, belong elsewhere. With original data the
/// main process that names no directory is the instance's. All else is left open.
pub proof fn processes_belong_by_what_they_name(
    switches: SwitchesView,
    data: Option<Result<FileIdentity>>,
    named: Result<FileIdentity>,
)
    ensures
        match classification(Some(switches), data, named) {
            Err(e) => switches.user_data is Some && named is Ok && data == Some(Err::<FileIdentity, Error>(e)),
            Ok((role, relation)) => {
                &&& role == ProcessRole::Main <==> switches.process_type is None
                &&& role == ProcessRole::Auxiliary <==> switches.process_type is Some && helper_type(
                    switches.process_type->0,
                )
                &&& relation == InstanceRelation::Target <==> match data {
                    None => switches.user_data is None && switches.process_type is None,
                    Some(found) => switches.user_data is Some && found is Ok && named == Ok::<FileIdentity, Error>(
                        found->Ok_0,
                    ),
                }
                &&& relation == InstanceRelation::Other <==> data is Some && if switches.user_data is None {
                    switches.process_type is None
                } else {
                    named is Ok && data->0 is Ok && named->Ok_0 != data->0->Ok_0
                }
            },
        },
        classification(None, data, named) == Ok::<(ProcessRole, InstanceRelation), Error>(
            (ProcessRole::Unknown, InstanceRelation::Unknown),
        ),
{
}

/// A helper that names no directory of its own.
pub open spec fn bare_helper(member: Member) -> bool {
    told_switches(member.arguments) matches Some(s) && s.user_data is None && s.process_type is Some && helper_type(
        s.process_type->0,
    )
}

/// A process that is older than another, of the same user, session and image, and not the same.
pub open spec fn may_have_started(parent: ProcessView, child: ProcessView) -> bool {
    parent.pid != child.pid && parent.creation_time < child.creation_time && parent.user_sid == child.user_sid
        && parent.session_id == child.session_id && parent.image_file == child.image_file
}

/// The line from member `i` to member `j` consists of helpers without a directory, each followed by one that may have
/// started it.
pub open spec fn leads_to(members: Seq<Member>, i: int, j: int) -> bool {
    forall|k: int|
        i <= k < j ==> bare_helper(#[trigger] members[k]) && may_have_started(
            members[k + 1].identity@,
            members[k].identity@,
        )
}

proof fn lines_lead(members: Seq<Member>, i: int, data: Option<Result<FileIdentity>>)
    requires
        0 <= i < members.len(),
    ensures
        exists|j: int|
            i <= j < members.len() && #[trigger] leads_to(members, i, j) && (j > i ==> j <= 8) && (match (
                family(members, i, data),
                classification(told_switches(members[j].arguments), data, members[j].named),
            ) {
                (Ok((_, a)), Ok((_, b))) => a == b,
                (Err(a), Err(b)) => a == b,
                _ => false,
            }) && (bare_helper(members[j]) && j < 8 && j + 1 < members.len() ==> !may_have_started(
                members[j + 1].identity@,
                members[j].identity@,
            ) || classification(told_switches(members[j].arguments), data, members[j].named) is Err),
    decreases members.len() - i,
{
    let m = members[i];
    if bare_helper(m) && i < 8 && i + 1 < members.len() && may_have_started(members[i + 1].identity@, m.identity@) {
        lines_lead(members, i + 1, data);
        let j = choose|j: int|
            i + 1 <= j < members.len() && #[trigger] leads_to(members, i + 1, j) && (j > i + 1 ==> j <= 8) && (match (
                family(members, i + 1, data),
                classification(told_switches(members[j].arguments), data, members[j].named),
            ) {
                (Ok((_, a)), Ok((_, b))) => a == b,
                (Err(a), Err(b)) => a == b,
                _ => false,
            }) && (bare_helper(members[j]) && j < 8 && j + 1 < members.len() ==> !may_have_started(
                members[j + 1].identity@,
                members[j].identity@,
            ) || classification(told_switches(members[j].arguments), data, members[j].named) is Err);
        assert(leads_to(members, i, j));
    } else {
        assert(leads_to(members, i, i));
    }
}

/// A helper belongs where its line leads: to the first process that names a directory or is no helper, through
/// processes each of which may have started the one before, eight steps at most.
pub proof fn helpers_belong_where_their_line_leads(members: Seq<Member>, data: Option<Result<FileIdentity>>)
    requires
        members.len() > 0,
    ensures
        exists|j: int|
            0 <= j < members.len() && j <= 8 && #[trigger] leads_to(members, 0, j) && (match (
                family(members, 0, data),
                classification(told_switches(members[j].arguments), data, members[j].named),
            ) {
                (Ok((_, a)), Ok((_, b))) => a == b,
                (Err(a), Err(b)) => a == b,
                _ => false,
            }),
        family(members, 0, data) matches Ok((role, _)) ==> (told_switches(members[0].arguments) matches Some(s) ==> (
        role == ProcessRole::Main <==> s.process_type is None)),
{
    lines_lead(members, 0, data);
}

/// Only a running process of the caller's user and session is inspected. One of another image is never the
/// instance's. Where the template leaves no trace in command lines, one of the same image is the main process. The proxy
/// is judged in the instance's own main process alone, by its own command line.
pub proof fn inspections_tell_only_what_was_seen(
    target: InstanceTarget,
    expected: ProcessIdentity,
    caller: ProcessView,
    running: Result<bool>,
    line: Result<Vec<Member>>,
    endpoint: Option<Endpoint>,
)
    ensures
        inspection(target, expected, caller, running, line, endpoint) matches Ok(told) ==> {
            &&& expected@.user_sid == caller.user_sid && expected@.session_id == caller.session_id && running == Ok::<
                bool,
                Error,
            >(true)
            &&& told.identity == expected
            &&& told.relation == InstanceRelation::Target ==> expected.image_file == target.application.image
            &&& expected.image_file == target.application.image && target.template == Template::Environment
                ==> told.relation == InstanceRelation::Target && told.role == ProcessRole::Main
            &&& told.proxy != ProxyArguments::Unknown ==> {
                &&& told.role == ProcessRole::Main && told.relation == InstanceRelation::Target
                &&& endpoint is Some && line is Ok && line->Ok_0@.len() > 0
                &&& told.proxy == proxy_told(
                    told_switches(line->Ok_0@[0].arguments),
                    line->Ok_0@[0].address,
                    endpoint->0,
                )
            }
            &&& expected.image_file == target.application.image && target.template != Template::Environment ==> line
                is Ok && family(line->Ok_0@, 0, target.data) == Ok::<(ProcessRole, InstanceRelation), Error>(
                (told.role, told.relation),
            )
            &&& expected.image_file == target.application.image && target.template != Template::Environment
                && told.role == ProcessRole::Main && told.relation == InstanceRelation::Target && endpoint is Some
                && line->Ok_0@.len() > 0 ==> told.proxy == proxy_told(
                told_switches(line->Ok_0@[0].arguments),
                line->Ok_0@[0].address,
                endpoint->0,
            )
        },
{
}

} // verus!

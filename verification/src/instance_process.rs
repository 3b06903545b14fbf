//! Which running processes belong to an instance, judged by their image, their command line and the
//! directory they work on. A process is only described here, never taken over or ended.
use vstd::prelude::*;
use vstd::string::*;
use crate::error::{Error, Result, invalid};
use crate::ifeo_rules::{backslashed, on_drive, plain};
use crate::installation::ResolvedApplication;
use crate::model::{Endpoint, FileIdentity, ProcessIdentity, ProcessView, loopback};
use crate::path;
use crate::path::{Prefix, last_component, piece_views};
use crate::text;
use crate::text::folded;

verus! {

/// How deep a directory may lie, its root included.
pub const DEPTH_LIMIT: usize = 128;

/// How many ancestors of an auxiliary process are asked.
pub const FAMILY_LIMIT: usize = 8;

/// How an application is started and kept apart.
#[derive(Clone, Copy, Debug, PartialEq, Eq, Structural)]
pub enum Template {
    Claude,
    Codex,
    Environment,
}

/// What a process is for its application.
#[derive(Clone, Copy, Debug, PartialEq, Eq, Structural)]
pub enum ProcessRole {
    Main,
    Auxiliary,
    Unknown,
}

/// How a process relates to an instance.
#[derive(Clone, Copy, Debug, PartialEq, Eq, Structural)]
pub enum InstanceRelation {
    Target,
    Other,
    Unknown,
}

/// Whether a process was told to use the instance's proxy.
#[derive(Clone, Copy, Debug, PartialEq, Eq, Structural)]
pub enum ProxyArguments {
    Matching,
    Mismatched,
    Unknown,
}

/// A white-space character.
pub open spec fn whitespace(c: char) -> bool {
    let v = c as u32;
    (9 <= v && v <= 13) || v == 0x20 || v == 0x85 || v == 0xa0 || v == 0x1680 || (0x2000 <= v && v
        <= 0x200a) || v == 0x2028 || v == 0x2029 || v == 0x202f || v == 0x205f || v == 0x3000
}

fn is_whitespace(c: char) -> (r: bool)
    ensures
        r == whitespace(c),
{
    let v: u32 = c as u32;
    (9 <= v && v <= 13) || v == 0x20 || v == 0x85 || v == 0xa0 || v == 0x1680 || (0x2000 <= v && v
        <= 0x200a) || v == 0x2028 || v == 0x2029 || v == 0x202f || v == 0x205f || v == 0x3000
}

/// A text without the white space at its end.
pub open spec fn trimmed_back(t: Seq<char>) -> Seq<char>
    decreases t.len(),
{
    if t.len() > 0 && whitespace(t.last()) {
        trimmed_back(t.drop_last())
    } else {
        t
    }
}

/// A text without the white space at its beginning.
pub open spec fn trimmed_front(t: Seq<char>) -> Seq<char>
    decreases t.len(),
{
    if t.len() > 0 && whitespace(t[0]) {
        trimmed_front(t.drop_first())
    } else {
        t
    }
}

/// A text without the white space at both ends.
pub open spec fn trimmed(t: Seq<char>) -> Seq<char> {
    trimmed_front(trimmed_back(t))
}

fn trim(t: &[char]) -> (r: Vec<char>)
    ensures
        r@ == trimmed(t@),
{
    let mut end: usize = t.len();
    proof {
        assert(t@.take(t@.len() as int) =~= t@);
    }
    while end > 0 && is_whitespace(t[end - 1])
        invariant
            end <= t@.len(),
            trimmed_back(t@) == trimmed_back(t@.take(end as int)),
        decreases end,
    {
        proof {
            assert(t@.take(end as int).drop_last() =~= t@.take(end - 1));
        }
        end -= 1;
    }
    let ghost back = t@.take(end as int);
    proof {
        assert(trimmed_back(t@) == back);
        assert(back.skip(0) =~= back);
    }
    let mut start: usize = 0;
    while start < end && is_whitespace(t[start])
        invariant
            start <= end <= t@.len(),
            back == t@.take(end as int),
            trimmed_front(back) == trimmed_front(back.skip(start as int)),
        decreases end - start,
    {
        proof {
            assert(back.skip(start as int).drop_first() =~= back.skip(start + 1));
        }
        start += 1;
    }
    let mut out: Vec<char> = Vec::new();
    let mut i: usize = start;
    while i < end
        invariant
            start <= i <= end <= t@.len(),
            out@ == t@.subrange(start as int, i as int),
        decreases end - i,
    {
        out.push(t[i]);
        i += 1;
        proof {
            assert(t@.subrange(start as int, i as int) =~= t@.subrange(start as int, i - 1).push(
                t@[i - 1],
            ));
        }
    }
    proof {
        assert(out@ =~= back.skip(start as int));
        assert(trimmed_front(back.skip(start as int)) == back.skip(start as int));
    }
    out
}

/// What a browser-like program was told by its switches.
#[derive(Debug)]
pub struct ChromiumSwitches {
    pub user_data: Option<String>,
    pub process_type: Option<String>,
    pub proxy_server: Option<String>,
    pub proxy_conflict: bool,
}

/// The contents of switches.
pub struct SwitchesView {
    pub user_data: Option<Seq<char>>,
    pub process_type: Option<Seq<char>>,
    pub proxy_server: Option<Seq<char>>,
    pub proxy_conflict: bool,
}

impl View for ChromiumSwitches {
    type V = SwitchesView;

    open spec fn view(&self) -> SwitchesView {
        SwitchesView {
            user_data: text::option_view(self.user_data),
            process_type: text::option_view(self.process_type),
            proxy_server: text::option_view(self.proxy_server),
            proxy_conflict: self.proxy_conflict,
        }
    }
}

/// How far reading switches has come: a command line that cannot be judged, one whose switches have
/// ended, or one that goes on.
pub enum Reading {
    Refused,
    Ended(SwitchesView),
    Going(SwitchesView),
}

/// A word without the dashes or slash that make it a switch.
pub open spec fn switch_body(word: Seq<char>) -> Option<Seq<char>> {
    if word.len() >= 2 && word[0] == '-' && word[1] == '-' {
        Some(word.skip(2))
    } else if word.len() >= 1 && (word[0] == '-' || word[0] == '/') {
        Some(word.skip(1))
    } else {
        None
    }
}

/// The place of the first equals sign.
pub open spec fn equals_at(t: Seq<char>) -> int
    decreases t.len(),
{
    if t.len() == 0 {
        0
    } else if t[0] == '=' {
        0
    } else {
        1 + equals_at(t.drop_first())
    }
}

/// The name of a switch, its case folded, and its value.
pub open spec fn switch_parts(body: Seq<char>) -> (Seq<char>, Seq<char>) {
    let at = equals_at(body);
    if at < body.len() {
        (folded(body.take(at)), body.skip(at + 1))
    } else {
        (folded(body), Seq::empty())
    }
}

/// Switches that point away from a single fixed proxy.
pub open spec fn conflicting(name: Seq<char>) -> bool {
    name == "proxy-pac-url"@ || name == "proxy-auto-detect"@ || name == "proxy-bypass-list"@
        || name == "no-proxy-server"@
}

/// What one switch changes. A second directory or type, an empty directory, and a switch that hides the
/// rest of the line make the line one that cannot be judged.
pub open spec fn switch_read(
    state: SwitchesView,
    name: Seq<char>,
    value: Seq<char>,
) -> Reading {
    if name == "single-argument"@ {
        Reading::Refused
    } else if name == "proxy-server"@ {
        Reading::Going(
            SwitchesView {
                proxy_conflict: state.proxy_conflict || state.proxy_server is Some,
                proxy_server: Some(value),
                ..state
            },
        )
    } else if conflicting(name) {
        Reading::Going(SwitchesView { proxy_conflict: true, ..state })
    } else if name == "user-data-dir"@ {
        if value.len() == 0 || state.user_data is Some {
            Reading::Refused
        } else {
            Reading::Going(SwitchesView { user_data: Some(value), ..state })
        }
    } else if name == "type"@ {
        if state.process_type is Some {
            Reading::Refused
        } else {
            Reading::Going(SwitchesView { process_type: Some(value), ..state })
        }
    } else {
        Reading::Going(state)
    }
}

/// What one word changes. A word that is no text cannot be judged, and `--` ends the switches.
pub open spec fn word_read(state: SwitchesView, word: Option<Seq<char>>) -> Reading {
    match word {
        None => Reading::Refused,
        Some(word) => {
            let t = trimmed(word);
            if t.contains('\0') {
                Reading::Refused
            } else if t == "--"@ {
                Reading::Ended(state)
            } else {
                match switch_body(t) {
                    None => Reading::Going(state),
                    Some(body) => {
                        let (name, value) = switch_parts(body);
                        switch_read(state, name, value)
                    },
                }
            }
        },
    }
}

/// No switches.
pub open spec fn no_switches() -> SwitchesView {
    SwitchesView {
        user_data: None,
        process_type: None,
        proxy_server: None,
        proxy_conflict: false,
    }
}

/// The words of a command line; `None` stands for one that is no text.
pub open spec fn word_views(words: Seq<Option<String>>) -> Seq<Option<Seq<char>>> {
    words.map_values(|word: Option<String>| text::option_view(word))
}

/// The switches of the words behind the program's name, up to word `n`.
pub open spec fn reading(words: Seq<Option<Seq<char>>>, n: int) -> Reading
    decreases n,
{
    if n <= 1 {
        Reading::Going(no_switches())
    } else {
        match reading(words, n - 1) {
            Reading::Going(state) => word_read(state, words[n - 1]),
            other => other,
        }
    }
}

/// The switches of a command line, if it can be judged.
pub open spec fn switches_of(words: Seq<Option<Seq<char>>>) -> Option<SwitchesView> {
    if words.len() == 0 || words[0] == Some(Seq::<char>::empty()) {
        None
    } else {
        match reading(words, words.len() as int) {
            Reading::Refused => None,
            Reading::Ended(state) => Some(state),
            Reading::Going(state) => Some(state),
        }
    }
}

proof fn reading_stops(words: Seq<Option<Seq<char>>>, n: int, m: int)
    requires
        1 <= n <= m,
        !(reading(words, n) is Going),
    ensures
        reading(words, m) == reading(words, n),
    decreases m,
{
    if m > n {
        reading_stops(words, n, m - 1);
    }
}

fn slice_text(t: &[char], from: usize, to: usize) -> (r: String)
    requires
        from <= to <= t@.len(),
    ensures
        r@ == t@.subrange(from as int, to as int),
{
    let mut out = String::new();
    let mut i: usize = from;
    while i < to
        invariant
            from <= i <= to <= t@.len(),
            out@ == t@.subrange(from as int, i as int),
        decreases to - i,
    {
        out.push(t[i]);
        i += 1;
        proof {
            assert(t@.subrange(from as int, i as int) =~= t@.subrange(from as int, i - 1).push(
                t@[i - 1],
            ));
        }
    }
    out
}

fn fold_text(value: &str) -> (r: String)
    ensures
        r@ == folded(value@),
{
    let x = text::chars(value);
    let mut out = String::new();
    let mut i: usize = 0;
    while i < x.len()
        invariant
            i <= x.len(),
            x@ == value@,
            out@ == folded(value@).take(i as int),
        decreases x.len() - i,
    {
        out.push(text::lower(x[i]));
        i += 1;
        proof {
            let f = folded(value@);
            assert(f.take(i as int) =~= f.take(i - 1).push(f[i - 1]));
        }
    }
    proof {
        let f = folded(value@);
        assert(f.take(f.len() as int) =~= f);
    }
    out
}

fn find_equals(t: &[char], from: usize) -> (r: usize)
    requires
        from <= t@.len(),
    ensures
        from <= r <= t@.len(),
        r - from == equals_at(t@.skip(from as int)),
{
    let mut i: usize = from;
    while i < t.len() && t[i] != '='
        invariant
            from <= i <= t@.len(),
            equals_at(t@.skip(from as int)) == (i - from) + equals_at(t@.skip(i as int)),
        decreases t.len() - i,
    {
        proof {
            assert(t@.skip(i as int).drop_first() =~= t@.skip(i + 1));
        }
        i += 1;
    }
    i
}

/// How far reading switches has come.
enum Read {
    Refused,
    Ended,
    Going,
}

fn read_word(state: &mut ChromiumSwitches, word: &Option<String>) -> (r: Read)
    ensures
        match (r, word_read(old(state)@, text::option_view(*word))) {
            (Read::Refused, Reading::Refused) => true,
            (Read::Ended, Reading::Ended(view)) => final(state)@ == view,
            (Read::Going, Reading::Going(view)) => final(state)@ == view,
            _ => false,
        },
{
    let written = match word {
        Some(written) => written,
        None => {
            return Read::Refused;
        },
    };
    let raw = text::chars(written.as_str());
    let t = trim(raw.as_slice());
    let mut i: usize = 0;
    while i < t.len()
        invariant
            i <= t.len(),
            t@ == trimmed(written@),
            *word == Some(*written),
            forall|k: int| 0 <= k < i ==> t@[k] != '\0',
        decreases t.len() - i,
    {
        if t[i] == '\0' {
            proof {
                assert(t@.contains('\0'));
            }
            return Read::Refused;
        }
        i += 1;
    }
    proof {
        reveal_strlit("--");
    }
    let double = t.len() >= 2 && t[0] == '-' && t[1] == '-';
    if double && t.len() == 2 {
        proof {
            assert(t@ =~= "--"@);
        }
        return Read::Ended;
    }
    let start: usize = if double {
        2
    } else if t.len() >= 1 && (t[0] == '-' || t[0] == '/') {
        1
    } else {
        return Read::Going;
    };
    let ghost body = t@.skip(start as int);
    let at: usize = find_equals(t.as_slice(), start);
    let name = fold_text(slice_text(t.as_slice(), start, at).as_str());
    let value = if at < t.len() {
        slice_text(t.as_slice(), at + 1, t.len())
    } else {
        String::new()
    };
    proof {
        assert(switch_body(t@) == Some(body));
        let e = equals_at(body);
        if at < t@.len() {
            assert(body.take(e) =~= t@.subrange(start as int, at as int));
            assert(body.skip(e + 1) =~= t@.subrange(at + 1, t@.len() as int));
        } else {
            assert(body =~= t@.subrange(start as int, at as int));
            assert(value@ =~= Seq::<char>::empty());
        }
        assert(switch_parts(body) == (name@, value@));
    }
    if text::same(name.as_str(), "single-argument") {
        return Read::Refused;
    }
    if text::same(name.as_str(), "proxy-server") {
        if state.proxy_server.is_some() {
            state.proxy_conflict = true;
        }
        state.proxy_server = Some(value);
        return Read::Going;
    }
    if text::same(name.as_str(), "proxy-pac-url") || text::same(name.as_str(), "proxy-auto-detect")
        || text::same(name.as_str(), "proxy-bypass-list") || text::same(
        name.as_str(),
        "no-proxy-server",
    ) {
        state.proxy_conflict = true;
        return Read::Going;
    }
    if text::same(name.as_str(), "user-data-dir") {
        if value.as_str().is_empty() || state.user_data.is_some() {
            return Read::Refused;
        }
        state.user_data = Some(value);
        return Read::Going;
    }
    if text::same(name.as_str(), "type") {
        if state.process_type.is_some() {
            return Read::Refused;
        }
        state.process_type = Some(value);
        return Read::Going;
    }
    Read::Going
}

/// The switches of a command line, if it can be judged. A word that is no text is `None`.
pub fn chromium_switches(words: &[Option<String>]) -> (r: Option<ChromiumSwitches>)
    ensures
        match (r, switches_of(word_views(words@))) {
            (Some(found), Some(view)) => found@ == view,
            (None, None) => true,
            _ => false,
        },
{
    let ghost views = word_views(words@);
    if words.len() == 0 {
        return None;
    }
    match &words[0] {
        Some(first) => {
            if first.as_str().is_empty() {
                proof {
                    assert(views[0] == text::option_view(words@[0]));
                    assert(first@ =~= Seq::<char>::empty());
                }
                return None;
            }
        },
        None => {},
    }
    proof {
        assert(views[0] == text::option_view(words@[0]));
        if views[0] == Some(Seq::<char>::empty()) {
            assert(words@[0]->0@.len() == 0);
        }
    }
    let mut state = ChromiumSwitches {
        user_data: None,
        process_type: None,
        proxy_server: None,
        proxy_conflict: false,
    };
    let mut i: usize = 1;
    while i < words.len()
        invariant
            1 <= i <= words.len(),
            views == word_views(words@),
            views[0] != Some(Seq::<char>::empty()),
            reading(views, i as int) == Reading::Going(state@),
        decreases words.len() - i,
    {
        proof {
            assert(views[i as int] == text::option_view(words@[i as int]));
        }
        match read_word(&mut state, &words[i]) {
            Read::Refused => {
                proof {
                    reading_stops(views, i + 1, views.len() as int);
                }
                return None;
            },
            Read::Ended => {
                proof {
                    reading_stops(views, i + 1, views.len() as int);
                }
                return Some(state);
            },
            Read::Going => {},
        }
        i += 1;
    }
    Some(state)
}

/// Process types that help a main process.
pub open spec fn auxiliary(kind: Seq<char>) -> bool {
    kind == "renderer"@ || kind == "gpu-process"@ || kind == "utility"@ || kind == "zygote"@ || kind
        == "crashpad-handler"@
}

/// The role that switches tell.
pub open spec fn role_of(switches: SwitchesView) -> ProcessRole {
    match switches.process_type {
        None => ProcessRole::Main,
        Some(kind) => if auxiliary(kind) {
            ProcessRole::Auxiliary
        } else {
            ProcessRole::Unknown
        },
    }
}

/// What a command line tells of a process. `data` is the directory of the instance, for an isolated one,
/// and `named` the directory that the command line names; each is what finding the directory came to.
pub open spec fn classification(
    switches: Option<SwitchesView>,
    data: Option<Result<FileIdentity>>,
    named: Result<FileIdentity>,
) -> Result<(ProcessRole, InstanceRelation)> {
    match switches {
        None => Ok((ProcessRole::Unknown, InstanceRelation::Unknown)),
        Some(s) => {
            let role = role_of(s);
            if s.user_data is None {
                if role != ProcessRole::Main {
                    Ok((role, InstanceRelation::Unknown))
                } else if data is None {
                    Ok((role, InstanceRelation::Target))
                } else {
                    Ok((role, InstanceRelation::Other))
                }
            } else {
                match (data, named) {
                    (None, _) => Ok((role, InstanceRelation::Unknown)),
                    (Some(_), Err(_)) => Ok((role, InstanceRelation::Unknown)),
                    (Some(Err(e)), Ok(_)) => Err(e),
                    (Some(Ok(expected)), Ok(actual)) => if actual == expected {
                        Ok((role, InstanceRelation::Target))
                    } else {
                        Ok((role, InstanceRelation::Other))
                    },
                }
            }
        },
    }
}

fn role(switches: &ChromiumSwitches) -> (r: ProcessRole)
    ensures
        r == role_of(switches@),
{
    match &switches.process_type {
        None => ProcessRole::Main,
        Some(kind) => {
            if text::same(kind.as_str(), "renderer") || text::same(kind.as_str(), "gpu-process")
                || text::same(kind.as_str(), "utility") || text::same(kind.as_str(), "zygote")
                || text::same(kind.as_str(), "crashpad-handler") {
                ProcessRole::Auxiliary
            } else {
                ProcessRole::Unknown
            }
        },
    }
}

/// The contents of switches that may be missing.
pub open spec fn switches_view(switches: Option<&ChromiumSwitches>) -> Option<SwitchesView> {
    match switches {
        Some(s) => Some(s@),
        None => None,
    }
}

/// The switches of a command line that may be unavailable.
pub open spec fn told_switches(arguments: Option<Vec<Option<String>>>) -> Option<SwitchesView> {
    match arguments {
        Some(words) => switches_of(word_views(words@)),
        None => None,
    }
}

fn find_switches(arguments: &Option<Vec<Option<String>>>) -> (r: Option<ChromiumSwitches>)
    ensures
        match (r, told_switches(*arguments)) {
            (Some(found), Some(view)) => found@ == view,
            (None, None) => true,
            _ => false,
        },
{
    match arguments {
        Some(words) => chromium_switches(words.as_slice()),
        None => None,
    }
}

/// What a command line tells of a process.
pub fn classify(
    arguments: &Option<Vec<Option<String>>>,
    data: Option<Result<FileIdentity>>,
    named: Result<FileIdentity>,
) -> (r: Result<(ProcessRole, InstanceRelation)>)
    ensures
        r == classification(told_switches(*arguments), data, named),
{
    let switches = match find_switches(arguments) {
        Some(switches) => switches,
        None => {
            return Ok((ProcessRole::Unknown, InstanceRelation::Unknown));
        },
    };
    let role = role(&switches);
    if switches.user_data.is_none() {
        let relation = if !matches!(role, ProcessRole::Main) {
            InstanceRelation::Unknown
        } else if data.is_none() {
            InstanceRelation::Target
        } else {
            InstanceRelation::Other
        };
        return Ok((role, relation));
    }
    match data {
        None => Ok((role, InstanceRelation::Unknown)),
        Some(expected) => match named {
            Err(_) => Ok((role, InstanceRelation::Unknown)),
            Ok(actual) => match expected {
                Ok(expected) => if actual == expected {
                    Ok((role, InstanceRelation::Target))
                } else {
                    Ok((role, InstanceRelation::Other))
                },
                Err(error) => Err(error),
            },
        },
    }
}

/// A process that may have started another: an older one of the same user, session and image.
pub open spec fn parent_fits(child: ProcessView, parent: ProcessView) -> bool {
    child.pid != parent.pid && parent.creation_time < child.creation_time && parent.user_sid
        == child.user_sid && parent.session_id == child.session_id && parent.image_file
        == child.image_file
}

/// Whether a process may have started another.
pub fn valid_parent(child: &ProcessIdentity, parent: &ProcessIdentity) -> (r: bool)
    ensures
        r == parent_fits(child@, parent@),
{
    child.pid != parent.pid && parent.creation_time < child.creation_time && text::same(
        parent.user_sid.as_str(),
        child.user_sid.as_str(),
    ) && parent.session_id == child.session_id && parent.image_file == child.image_file
}

/// A process and what is seen of it: its command line, the directory that its command line names, and the
/// endpoint that the address of its proxy switch names, if it names one.
#[derive(Debug)]
pub struct Member {
    pub identity: ProcessIdentity,
    pub arguments: Option<Vec<Option<String>>>,
    pub named: Result<FileIdentity>,
    pub address: Option<Endpoint>,
}

/// What a member's own command line tells.
pub open spec fn member_class(member: Member, data: Option<Result<FileIdentity>>) -> Result<
    (ProcessRole, InstanceRelation),
> {
    classification(told_switches(member.arguments), data, member.named)
}

/// A member that leaves the question to its parent: an auxiliary process that names no directory.
pub open spec fn asks_parent(member: Member, data: Option<Result<FileIdentity>>) -> bool {
    member_class(member, data) == Ok::<(ProcessRole, InstanceRelation), Error>(
        (ProcessRole::Auxiliary, InstanceRelation::Unknown),
    ) && told_switches(member.arguments)->0.user_data is None
}

/// What a line of ancestors tells of its first member: an auxiliary process belongs where the nearest
/// ancestor that can be judged belongs, as long as each ancestor may have started its child.
pub open spec fn family(
    members: Seq<Member>,
    i: int,
    data: Option<Result<FileIdentity>>,
) -> Result<(ProcessRole, InstanceRelation)>
    decreases members.len() - i,
{
    if i < 0 || i >= members.len() {
        Ok((ProcessRole::Unknown, InstanceRelation::Unknown))
    } else if !asks_parent(members[i], data) || i >= FAMILY_LIMIT || i + 1 >= members.len()
        || !parent_fits(members[i].identity@, members[i + 1].identity@) {
        member_class(members[i], data)
    } else {
        match family(members, i + 1, data) {
            Err(e) => Err(e),
            Ok((_, relation)) => Ok((ProcessRole::Auxiliary, relation)),
        }
    }
}

/// What a line of ancestors tells of its first member.
pub fn classify_family(members: &[Member], data: Option<Result<FileIdentity>>) -> (r: Result<
    (ProcessRole, InstanceRelation),
>)
    ensures
        r == family(members@, 0, data),
{
    if members.len() == 0 {
        return Ok((ProcessRole::Unknown, InstanceRelation::Unknown));
    }
    climb(members, 0, data)
}

fn asks(member: &Member, data: Option<Result<FileIdentity>>) -> (r: Result<
    (ProcessRole, InstanceRelation, bool),
>)
    ensures
        match member_class(*member, data) {
            Err(e) => r == Err::<(ProcessRole, InstanceRelation, bool), Error>(e),
            Ok((role, relation)) => r == Ok::<(ProcessRole, InstanceRelation, bool), Error>(
                (role, relation, asks_parent(*member, data)),
            ),
        },
{
    let (role, relation) = classify(&member.arguments, data, member.named)?;
    let bare = match find_switches(&member.arguments) {
        Some(switches) => switches.user_data.is_none(),
        None => false,
    };
    Ok(
        (
            role,
            relation,
            matches!(role, ProcessRole::Auxiliary) && matches!(relation, InstanceRelation::Unknown)
                && bare,
        ),
    )
}

fn climb(members: &[Member], i: usize, data: Option<Result<FileIdentity>>) -> (r: Result<
    (ProcessRole, InstanceRelation),
>)
    requires
        i < members@.len(),
    ensures
        r == family(members@, i as int, data),
    decreases members@.len() - i,
{
    let (role, relation, asked) = asks(&members[i], data)?;
    let n: usize = members.len();
    if !asked || i >= FAMILY_LIMIT || i >= n - 1 || !valid_parent(
        &members[i].identity,
        &members[i + 1].identity,
    ) {
        return Ok((role, relation));
    }
    let (_, relation) = climb(members, i + 1, data)?;
    Ok((ProcessRole::Auxiliary, relation))
}

/// What the proxy switches tell without an address: a verdict, or a scheme and an address to be read.
#[derive(Debug)]
pub enum ProxyValue {
    Decided(ProxyArguments),
    Address { http: bool, other_proxy: bool, address: String },
}

/// The place of `://` in a text.
pub open spec fn scheme_at(t: Seq<char>) -> Option<int>
    decreases t.len(),
{
    if t.len() < 3 {
        None
    } else if t[0] == ':' && t[1] == '/' && t[2] == '/' {
        Some(0)
    } else {
        match scheme_at(t.drop_first()) {
            Some(at) => Some(at + 1),
            None => None,
        }
    }
}

/// A character that only lists of proxies and rules hold.
pub open spec fn list_char(c: char) -> bool {
    c == ';' || c == ',' || c == '=' || c == ' ' || c == '@'
}

/// The scheme and the address of a proxy. Without a scheme it is a plain one.
pub open spec fn proxy_parts(value: Seq<char>) -> (Seq<char>, Seq<char>) {
    match scheme_at(value) {
        Some(at) => (value.take(at), value.skip(at + 3)),
        None => ("http"@, value),
    }
}

/// Schemes of proxies of another kind.
pub open spec fn other_scheme(scheme: Seq<char>) -> bool {
    text::same_folded(scheme, "https"@) || text::same_folded(scheme, "socks"@)
        || text::same_folded(scheme, "socks4"@) || text::same_folded(scheme, "socks5"@)
}

/// What the proxy switches tell without an address.
pub open spec fn proxy_value_of(switches: Option<SwitchesView>, value: ProxyValue) -> bool {
    match switches {
        None => value == ProxyValue::Decided(ProxyArguments::Unknown),
        Some(s) => if s.proxy_conflict || s.proxy_server is None || s.proxy_server->0.len() == 0
            || text::same_folded(s.proxy_server->0, "direct://"@) {
            value == ProxyValue::Decided(ProxyArguments::Mismatched)
        } else if exists|i: int|
            0 <= i < s.proxy_server->0.len() && list_char(#[trigger] s.proxy_server->0[i]) {
            value == ProxyValue::Decided(ProxyArguments::Unknown)
        } else {
            let (scheme, place) = proxy_parts(s.proxy_server->0);
            value matches ProxyValue::Address { http, other_proxy, address } && http
                == text::same_folded(scheme, "http"@) && other_proxy == other_scheme(scheme)
                && address@ == place
        },
    }
}

/// Whether a proxy is the instance's own, once its address is read: `parsed` is the endpoint that the
/// address names, if it names one.
pub open spec fn proxy_verdict(
    http: bool,
    other_proxy: bool,
    parsed: Option<Endpoint>,
    endpoint: Endpoint,
) -> ProxyArguments {
    match parsed {
        None => ProxyArguments::Unknown,
        Some(actual) => if !http {
            if other_proxy {
                ProxyArguments::Mismatched
            } else {
                ProxyArguments::Unknown
            }
        } else if actual == endpoint {
            ProxyArguments::Matching
        } else {
            ProxyArguments::Mismatched
        },
    }
}

fn find_scheme(t: &[char]) -> (r: Option<usize>)
    ensures
        match (r, scheme_at(t@)) {
            (Some(at), Some(place)) => at == place && at + 3 <= t@.len(),
            (None, None) => true,
            _ => false,
        },
{
    let n: usize = t.len();
    let mut i: usize = 0;
    proof {
        assert(t@.skip(0) =~= t@);
    }
    while i < n && n - i >= 3
        invariant
            i <= n,
            n == t@.len(),
            match (scheme_at(t@), scheme_at(t@.skip(i as int))) {
                (Some(a), Some(b)) => a == b + i,
                (None, None) => true,
                _ => false,
            },
        decreases n - i,
    {
        if t[i] == ':' && t[i + 1] == '/' && t[i + 2] == '/' {
            return Some(i);
        }
        proof {
            assert(t@.skip(i as int).drop_first() =~= t@.skip(i + 1));
        }
        i += 1;
    }
    None
}

/// What the proxy switches tell without an address.
pub fn proxy_value(switches: Option<&ChromiumSwitches>) -> (r: ProxyValue)
    ensures
        proxy_value_of(switches_view(switches), r),
{
    let given = match switches {
        Some(given) => given,
        None => {
            return ProxyValue::Decided(ProxyArguments::Unknown);
        },
    };
    if given.proxy_conflict {
        return ProxyValue::Decided(ProxyArguments::Mismatched);
    }
    let value = match &given.proxy_server {
        Some(value) => value,
        None => {
            return ProxyValue::Decided(ProxyArguments::Mismatched);
        },
    };
    if value.as_str().is_empty() || text::eq_ignore_ascii_case(value.as_str(), "direct://") {
        return ProxyValue::Decided(ProxyArguments::Mismatched);
    }
    let t = text::chars(value.as_str());
    let mut i: usize = 0;
    while i < t.len()
        invariant
            i <= t.len(),
            t@ == value@,
            switches == Some(given),
            given.proxy_server == Some(*value),
            !given.proxy_conflict,
            value@.len() > 0,
            !text::same_folded(value@, "direct://"@),
            forall|k: int| 0 <= k < i ==> !list_char(#[trigger] value@[k]),
        decreases t.len() - i,
    {
        let c = t[i];
        if c == ';' || c == ',' || c == '=' || c == ' ' || c == '@' {
            proof {
                assert(list_char(value@[i as int]));
                assert(given@.proxy_server->0[i as int] == value@[i as int]);
            }
            return ProxyValue::Decided(ProxyArguments::Unknown);
        }
        i += 1;
    }
    let (scheme, address) = match find_scheme(t.as_slice()) {
        Some(at) => {
            let scheme = slice_text(t.as_slice(), 0, at);
            let address = slice_text(t.as_slice(), at + 3, t.len());
            proof {
                assert(scheme@ =~= value@.take(at as int));
                assert(address@ =~= value@.skip(at + 3));
            }
            (scheme, address)
        },
        None => ("http".to_owned(), value.clone()),
    };
    let http = text::eq_ignore_ascii_case(scheme.as_str(), "http");
    let other_proxy = text::eq_ignore_ascii_case(scheme.as_str(), "https")
        || text::eq_ignore_ascii_case(scheme.as_str(), "socks") || text::eq_ignore_ascii_case(
        scheme.as_str(),
        "socks4",
    ) || text::eq_ignore_ascii_case(scheme.as_str(), "socks5");
    ProxyValue::Address { http, other_proxy, address }
}

/// Whether a proxy is the instance's own, once its address is read.
pub fn proxy_arguments(value: &ProxyValue, parsed: Option<Endpoint>, endpoint: Endpoint) -> (r:
    ProxyArguments)
    ensures
        r == (match *value {
            ProxyValue::Decided(verdict) => verdict,
            ProxyValue::Address { http, other_proxy, .. } => proxy_verdict(
                http,
                other_proxy,
                parsed,
                endpoint,
            ),
        }),
{
    match value {
        ProxyValue::Decided(verdict) => *verdict,
        ProxyValue::Address { http, other_proxy, .. } => match parsed {
            None => ProxyArguments::Unknown,
            Some(actual) => if !*http {
                if *other_proxy {
                    ProxyArguments::Mismatched
                } else {
                    ProxyArguments::Unknown
                }
            } else if actual == endpoint {
                ProxyArguments::Matching
            } else {
                ProxyArguments::Mismatched
            },
        },
    }
}

/// What the proxy switches of a command line tell of an endpoint. `parsed` is the endpoint that the address
/// in them names, if it names one.
pub open spec fn proxy_told(
    switches: Option<SwitchesView>,
    parsed: Option<Endpoint>,
    endpoint: Endpoint,
) -> ProxyArguments {
    match switches {
        None => ProxyArguments::Unknown,
        Some(s) => if s.proxy_conflict || s.proxy_server is None || s.proxy_server->0.len() == 0
            || text::same_folded(s.proxy_server->0, "direct://"@) {
            ProxyArguments::Mismatched
        } else if exists|i: int|
            0 <= i < s.proxy_server->0.len() && list_char(#[trigger] s.proxy_server->0[i]) {
            ProxyArguments::Unknown
        } else {
            let (scheme, _) = proxy_parts(s.proxy_server->0);
            proxy_verdict(
                text::same_folded(scheme, "http"@),
                other_scheme(scheme),
                parsed,
                endpoint,
            )
        },
    }
}

fn tell_proxy(
    arguments: &Option<Vec<Option<String>>>,
    parsed: Option<Endpoint>,
    endpoint: Endpoint,
) -> (r: ProxyArguments)
    ensures
        r == proxy_told(told_switches(*arguments), parsed, endpoint),
{
    let switches = find_switches(arguments);
    let value = match &switches {
        Some(given) => proxy_value(Some(given)),
        None => proxy_value(None),
    };
    proxy_arguments(&value, parsed, endpoint)
}

/// Two paths that differ at most in their prefix, their separators and the case of ASCII letters.
pub open spec fn paths_equal(a: Seq<char>, b: Seq<char>) -> bool {
    folded(backslashed(plain(a))) == folded(backslashed(plain(b)))
}

fn normalized(path: &str) -> (r: String)
    ensures
        r@ == folded(backslashed(plain(path@))),
{
    let x = text::chars(path);
    let verbatim = crate::ifeo_rules::begins_verbatim(x.as_slice());
    proof {
        reveal_strlit(r"\\?\");
    }
    let start: usize = if verbatim {
        4
    } else {
        0
    };
    let ghost wanted = folded(backslashed(plain(path@)));
    let mut out = String::new();
    let mut i: usize = start;
    while i < x.len()
        invariant
            start <= i <= x.len(),
            x@ == path@,
            plain(path@) == path@.skip(start as int) || (start == 0 && plain(path@) == path@),
            wanted == folded(backslashed(plain(path@))),
            out@ == wanted.take(i - start),
        decreases x.len() - i,
    {
        let c = x[i];
        out.push(
            text::lower(
                if c == '/' {
                    '\\'
                } else {
                    c
                },
            ),
        );
        i += 1;
        proof {
            let k = i - start;
            assert(plain(path@)[k - 1] == c);
            assert(wanted.take(k) =~= wanted.take(k - 1).push(wanted[k - 1]));
        }
    }
    proof {
        assert(wanted.take(wanted.len() as int) =~= wanted);
    }
    out
}

/// Whether two paths differ at most in their prefix, their separators and the case of ASCII letters.
pub fn same_path(a: &str, b: &str) -> (r: bool)
    ensures
        r == paths_equal(a@, b@),
{
    text::same(normalized(a).as_str(), normalized(b).as_str())
}

/// A drive that directories may lie on: a fixed, removable or memory drive.
pub open spec fn drive_fits(kind: u32) -> bool {
    kind == 2 || kind == 3 || kind == 6
}

/// Check the kind of a drive that directories may lie on.
pub fn drive_accepted(kind: u32) -> (r: Result<()>)
    ensures
        r == (if drive_fits(kind) {
            Ok(())
        } else {
            invalid::<()>("INSTANCE_DIRECTORY_UNRESOLVED")
        }),
{
    if kind == 2 || kind == 3 || kind == 6 {
        Ok(())
    } else {
        Err(Error::Invalid("INSTANCE_DIRECTORY_UNRESOLVED"))
    }
}

/// The capital of an ASCII letter; every other character stands for itself.
pub open spec fn ascii_upper(c: char) -> char {
    if 'a' <= c && c <= 'z' {
        ((c as u8) - 32) as u8 as char
    } else {
        c
    }
}

fn upper(c: char) -> (r: char)
    ensures
        r == ascii_upper(c),
{
    if 'a' <= c && c <= 'z' {
        ((c as u8) - 32) as char
    } else {
        c
    }
}

/// The letter of a path's drive, as a capital.
pub open spec fn drive_of(path: Seq<char>) -> char {
    ascii_upper(path[path::prefix_end(path) - 2])
}

/// The directories on the way to a path, from the drive's root, after `n` pieces. Empty pieces count for
/// nothing, nor does `.` outside of `\\?\`; a step upwards cannot be resolved, and the way may not be
/// too long.
pub open spec fn way(
    parts: Seq<Seq<char>>,
    n: int,
    root: Seq<char>,
    verbatim: bool,
) -> Result<Seq<Seq<char>>>
    decreases n,
{
    if n <= 0 {
        Ok(seq![root])
    } else {
        match way(parts, n - 1, root, verbatim) {
            Err(e) => Err(e),
            Ok(so_far) => {
                let part = parts[n - 1];
                if path::skipped(part, verbatim) {
                    Ok(so_far)
                } else if path::dots(part) {
                    invalid("INSTANCE_DIRECTORY_UNRESOLVED")
                } else if so_far.len() >= DEPTH_LIMIT {
                    invalid("INSTANCE_DIRECTORY_DEPTH_LIMIT")
                } else {
                    Ok(so_far.push(path::pushed(so_far.last(), part)))
                }
            },
        }
    }
}

/// The root of a path's drive, behind `\\?\` if the path is.
pub open spec fn drive_root(path: Seq<char>) -> Seq<char> {
    (if path::prefix(path) == Prefix::VerbatimDisk {
        r"\\?\"@
    } else {
        Seq::empty()
    }) + seq![drive_of(path), ':', '\\']
}

/// The directories on the way to a path on a drive of this kind.
pub open spec fn directories(path: Seq<char>, drive: u32) -> Result<Seq<Seq<char>>> {
    if !on_drive(path) || !drive_fits(drive) {
        invalid("INSTANCE_DIRECTORY_UNRESOLVED")
    } else {
        way(
            path::parts(path),
            path::parts(path).len() as int,
            drive_root(path),
            path::prefix(path) == Prefix::VerbatimDisk,
        )
    }
}

/// The texts of paths, in order.
pub open spec fn text_views(list: Seq<String>) -> Seq<Seq<char>> {
    list.map_values(|t: String| t@)
}

proof fn way_stops(parts: Seq<Seq<char>>, n: int, m: int, root: Seq<char>, verbatim: bool)
    requires
        0 <= n <= m,
        way(parts, n, root, verbatim) is Err,
    ensures
        way(parts, m, root, verbatim) == way(parts, n, root, verbatim),
    decreases m,
{
    if m > n {
        way_stops(parts, n, m - 1, root, verbatim);
    }
}

/// The root of the drive that a directory lies on, which has to be asked for its kind.
pub fn directory_drive(path: &str) -> (r: Result<String>)
    ensures
        if on_drive(path@) {
            r matches Ok(root) && root@ == seq![drive_of(path@), ':', '\\']
        } else {
            r == invalid::<String>("INSTANCE_DIRECTORY_UNRESOLVED")
        },
{
    let x = text::chars(path);
    let found = path::anchor(x.as_slice());
    if !crate::ifeo_rules::is_on_drive(found) {
        return Err(Error::Invalid("INSTANCE_DIRECTORY_UNRESOLVED"));
    }
    let mut root = String::new();
    root.push(upper(x[found.end - 2]));
    root.push(':');
    root.push('\\');
    proof {
        assert(root@ =~= seq![drive_of(path@), ':', '\\']);
    }
    Ok(root)
}

/// The directories on the way to a path, each of which has to be a plain directory. `drive` is the kind of the
/// path's drive.
pub fn directory_paths(path: &str, drive: u32) -> (r: Result<Vec<String>>)
    ensures
        match directories(path@, drive) {
            Err(e) => r == Err::<Vec<String>, Error>(e),
            Ok(list) => r matches Ok(found) && text_views(found@) == list,
        },
{
    let bare = directory_drive(path)?;
    drive_accepted(drive)?;
    let x = text::chars(path);
    let found = path::anchor(x.as_slice());
    let verbatim = matches!(found.kind, Prefix::VerbatimDisk);
    let root = if verbatim {
        text::join(r"\\?\", bare.as_str())
    } else {
        bare
    };
    proof {
        assert(root@ =~= drive_root(path@));
    }
    let parts = path::split_parts(x.as_slice(), found);
    let ghost views = path::parts(path@);
    let ghost top = drive_root(path@);
    let mut list: Vec<String> = Vec::new();
    list.push(root);
    proof {
        assert(text_views(list@) =~= seq![top]);
    }
    let mut k: usize = 0;
    while k < parts.len()
        invariant
            k <= parts.len(),
            piece_views(parts@) == views,
            views == path::parts(path@),
            verbatim == (path::prefix(path@) == Prefix::VerbatimDisk),
            top == drive_root(path@),
            on_drive(path@),
            drive_fits(drive),
            list@.len() >= 1,
            way(views, k as int, top, verbatim) == Ok::<Seq<Seq<char>>, Error>(text_views(list@)),
        decreases parts.len() - k,
    {
        let ghost so_far = text_views(list@);
        proof {
            assert(views[k as int] == parts@[k as int]@);
            assert(so_far.last() == list@[list@.len() - 1]@);
        }
        let part = &parts[k];
        let here = path::is_here(part.as_slice());
        if part.len() == 0 || (!verbatim && here) {
            k += 1;
            continue;
        }
        if here || path::is_up(part.as_slice()) {
            proof {
                way_stops(views, k + 1, views.len() as int, top, verbatim);
            }
            return Err(Error::Invalid("INSTANCE_DIRECTORY_UNRESOLVED"));
        }
        if list.len() >= DEPTH_LIMIT {
            proof {
                way_stops(views, k + 1, views.len() as int, top, verbatim);
            }
            return Err(Error::Invalid("INSTANCE_DIRECTORY_DEPTH_LIMIT"));
        }
        let last: usize = list.len() - 1;
        let next = path::push(list[last].as_str(), text::from_chars(part.as_slice()).as_str());
        list.push(next);
        proof {
            assert(text_views(list@) =~= so_far.push(next@));
        }
        k += 1;
    }
    Ok(list)
}

/// What is seen of a directory on the way: the status of opening it, the status of asking for its identity,
/// its attributes and its identity.
#[derive(Clone, Copy, Debug, PartialEq, Eq, Structural)]
pub struct DirectorySeen {
    pub opened: u32,
    pub inspected: u32,
    pub attributes: u32,
    pub identity: FileIdentity,
}

/// Why a directory on the way is refused.
pub open spec fn directory_verdict(seen: DirectorySeen) -> Result<()> {
    if seen.opened != 0 {
        Err(Error::Windows { operation: "InspectInstanceDirectory", code: seen.opened })
    } else if seen.inspected != 0 {
        Err(Error::Windows { operation: "InstanceDirectoryIdentity", code: seen.inspected })
    } else if seen.attributes & 0x400 != 0 {
        invalid("INSTANCE_DIRECTORY_REPARSE")
    } else if seen.attributes & 0x10 == 0 {
        invalid("INSTANCE_DIRECTORY_REQUIRED")
    } else {
        Ok(())
    }
}

/// The identity of the last directory on the way, if all are plain directories; the first that is not
/// decides.
pub open spec fn way_identity(seen: Seq<DirectorySeen>, i: int) -> Result<FileIdentity>
    decreases seen.len() - i,
{
    if i < 0 || i >= seen.len() {
        invalid("INSTANCE_DIRECTORY_UNRESOLVED")
    } else if directory_verdict(seen[i]) is Err {
        Err(directory_verdict(seen[i])->Err_0)
    } else if i + 1 == seen.len() {
        Ok(seen[i].identity)
    } else {
        way_identity(seen, i + 1)
    }
}

/// The identity of the directory at the end of a way.
pub fn directory_identity(seen: &[DirectorySeen]) -> (r: Result<FileIdentity>)
    ensures
        r == way_identity(seen@, 0),
{
    let mut i: usize = 0;
    while i < seen.len()
        invariant
            i <= seen.len(),
            i < seen.len() || seen.len() == 0,
            way_identity(seen@, 0) == way_identity(seen@, i as int),
        decreases seen.len() - i,
    {
        let entry = seen[i];
        if entry.opened != 0 {
            return Err(
                Error::Windows { operation: "InspectInstanceDirectory", code: entry.opened },
            );
        }
        if entry.inspected != 0 {
            return Err(
                Error::Windows { operation: "InstanceDirectoryIdentity", code: entry.inspected },
            );
        }
        if entry.attributes & 0x400 != 0 {
            return Err(Error::Invalid("INSTANCE_DIRECTORY_REPARSE"));
        }
        if entry.attributes & 0x10 == 0 {
            return Err(Error::Invalid("INSTANCE_DIRECTORY_REQUIRED"));
        }
        if i == seen.len() - 1 {
            return Ok(entry.identity);
        }
        i += 1;
    }
    Err(Error::Invalid("INSTANCE_DIRECTORY_UNRESOLVED"))
}

/// What is told of a process.
#[derive(Debug)]
pub struct InstanceObservation {
    pub identity: ProcessIdentity,
    pub role: ProcessRole,
    pub relation: InstanceRelation,
    pub proxy: ProxyArguments,
}

/// An endpoint that a proxy of this machine can have.
pub open spec fn endpoint_valid(endpoint: Endpoint) -> bool {
    loopback(endpoint.host) && endpoint.port != 0
}

/// Check the endpoint of a proxy.
pub fn check_endpoint(endpoint: &Endpoint) -> (r: Result<()>)
    ensures
        r == (if endpoint_valid(*endpoint) {
            Ok(())
        } else {
            invalid::<()>("INVALID_PROXY_ENDPOINT")
        }),
{
    if !endpoint.host.is_loopback() || endpoint.port == 0 {
        return Err(Error::Invalid("INVALID_PROXY_ENDPOINT"));
    }
    Ok(())
}

/// The instance that processes are judged for: its program, its template and, for isolated data, what finding
/// its directory came to.
#[derive(Debug)]
pub struct InstanceTarget {
    pub application: ResolvedApplication,
    pub data: Option<Result<FileIdentity>>,
    pub template: Template,
}

/// What the identity of a process alone tells: a verdict, or that its command line has to be asked.
pub open spec fn quick_class(target: InstanceTarget, process: ProcessView) -> Option<
    (ProcessRole, InstanceRelation),
> {
    if process.image_file != target.application.image {
        let named_alike = target.application.package is Some && match (
            last_component(process.image_path),
            last_component(target.application.executable@),
        ) {
            (Some(a), Some(b)) => text::same_folded(a, b),
            _ => false,
        };
        Some(
            (
                ProcessRole::Unknown,
                if paths_equal(process.image_path, target.application.executable@) || named_alike {
                    InstanceRelation::Unknown
                } else {
                    InstanceRelation::Other
                },
            ),
        )
    } else if target.template == Template::Environment {
        Some((ProcessRole::Main, InstanceRelation::Target))
    } else {
        None
    }
}

/// Whether a process can be inspected: it is of the caller's user and session, and it still runs as the
/// process it was.
pub open spec fn inspectable(
    expected: ProcessView,
    caller: ProcessView,
    running: Result<bool>,
) -> Result<()> {
    if expected.user_sid != caller.user_sid || expected.session_id != caller.session_id {
        Err(Error::IdentityMismatch)
    } else {
        match running {
            Err(e) => Err(e),
            Ok(false) => invalid("PROCESS_EXITED_DURING_INSPECTION"),
            Ok(true) => Ok(()),
        }
    }
}

/// What a process and its ancestors tell: the proxy is looked at only in the instance's main process, and only
/// if there is an endpoint to compare it with.
pub open spec fn observation(
    target: InstanceTarget,
    expected: ProcessIdentity,
    members: Seq<Member>,
    endpoint: Option<Endpoint>,
) -> Result<InstanceObservation> {
    match family(members, 0, target.data) {
        Err(e) => Err(e),
        Ok((role, relation)) => Ok(
            InstanceObservation {
                identity: expected,
                role,
                relation,
                proxy: if role == ProcessRole::Main && relation == InstanceRelation::Target
                    && endpoint is Some && members.len() > 0 {
                    proxy_told(
                        told_switches(members[0].arguments),
                        members[0].address,
                        endpoint->0,
                    )
                } else {
                    ProxyArguments::Unknown
                },
            },
        ),
    }
}

/// What asking for a process and its ancestors came to.
pub open spec fn asked_observation(
    target: InstanceTarget,
    expected: ProcessIdentity,
    line: Result<Vec<Member>>,
    endpoint: Option<Endpoint>,
) -> Result<InstanceObservation> {
    match line {
        Err(e) => Err(e),
        Ok(members) => observation(target, expected, members@, endpoint),
    }
}

/// What is told of a process: what its identity alone tells, or else what it and its ancestors tell.
pub open spec fn inspection(
    target: InstanceTarget,
    expected: ProcessIdentity,
    caller: ProcessView,
    running: Result<bool>,
    line: Result<Vec<Member>>,
    endpoint: Option<Endpoint>,
) -> Result<InstanceObservation> {
    match inspectable(expected@, caller, running) {
        Err(e) => Err(e),
        Ok(_) => match quick_class(target, expected@) {
            Some((role, relation)) => Ok(
                InstanceObservation {
                    identity: expected,
                    role,
                    relation,
                    proxy: ProxyArguments::Unknown,
                },
            ),
            None => asked_observation(target, expected, line, endpoint),
        },
    }
}

/// A process that may belong to an instance: whether it still runs, and what asking for it and its ancestors
/// came to, if they had to be asked.
#[derive(Debug)]
pub struct Candidate {
    pub expected: ProcessIdentity,
    pub running: Result<bool>,
    pub line: Result<Vec<Member>>,
}

/// What is told of the first `n` candidates that have to be asked for their command line, or of those that
/// need not be, in their order. The first that fails decides.
pub open spec fn gathered(
    target: InstanceTarget,
    candidates: Seq<Candidate>,
    caller: ProcessView,
    endpoint: Option<Endpoint>,
    asked: bool,
    n: nat,
) -> Result<Seq<InstanceObservation>>
    decreases n,
{
    if n == 0 {
        Ok(Seq::empty())
    } else {
        match gathered(target, candidates, caller, endpoint, asked, (n - 1) as nat) {
            Err(e) => Err(e),
            Ok(so_far) => {
                let c = candidates[n - 1];
                if (quick_class(target, c.expected@) is None) != asked {
                    Ok(so_far)
                } else {
                    let told = if asked {
                        asked_observation(target, c.expected, c.line, endpoint)
                    } else {
                        inspection(target, c.expected, caller, c.running, c.line, endpoint)
                    };
                    match told {
                        Err(e) => Err(e),
                        Ok(observation) => Ok(so_far.push(observation)),
                    }
                }
            },
        }
    }
}

proof fn gathering_stops(
    target: InstanceTarget,
    candidates: Seq<Candidate>,
    caller: ProcessView,
    endpoint: Option<Endpoint>,
    asked: bool,
    n: nat,
    m: nat,
)
    requires
        n <= m,
        gathered(target, candidates, caller, endpoint, asked, n) is Err,
    ensures
        gathered(target, candidates, caller, endpoint, asked, m) == gathered(
            target,
            candidates,
            caller,
            endpoint,
            asked,
            n,
        ),
    decreases m,
{
    if m > n {
        gathering_stops(target, candidates, caller, endpoint, asked, n, (m - 1) as nat);
    }
}

/// An endpoint that may be missing, when it is borrowed.
pub open spec fn lent(endpoint: Option<&Endpoint>) -> Option<Endpoint> {
    match endpoint {
        Some(endpoint) => Some(*endpoint),
        None => None,
    }
}

impl InstanceTarget {
    /// An instance that processes are judged for. A template that only sets the environment cannot isolate
    /// data.
    pub fn new(
        application: ResolvedApplication,
        data: Option<Result<FileIdentity>>,
        template: Template,
    ) -> (r: Result<InstanceTarget>)
        ensures
            r == (if data is Some && template == Template::Environment {
                invalid::<InstanceTarget>("ISOLATION_UNSUPPORTED")
            } else {
                Ok(InstanceTarget { application, data, template })
            }),
    {
        if data.is_some() && matches!(template, Template::Environment) {
            return Err(Error::Invalid("ISOLATION_UNSUPPORTED"));
        }
        Ok(InstanceTarget { application, data, template })
    }

    /// What the identity of a process alone tells, once it may be inspected; `None` says that its command
    /// line has to be asked.
    pub fn inspect_identity(
        &self,
        expected: &ProcessIdentity,
        caller: &ProcessIdentity,
        running: Result<bool>,
    ) -> (r: Result<Option<InstanceObservation>>)
        ensures
            identity_observation(*self, *expected, caller@, running, r),
    {
        if !text::same(expected.user_sid.as_str(), caller.user_sid.as_str())
            || expected.session_id != caller.session_id {
            return Err(Error::IdentityMismatch);
        }
        if !running? {
            return Err(Error::Invalid("PROCESS_EXITED_DURING_INSPECTION"));
        }
        if expected.image_file != self.application.image {
            let named_alike = self.application.package.is_some() && match (
                path::file_name(expected.image_path.as_str()),
                path::file_name(self.application.executable.as_str()),
            ) {
                (Some(a), Some(b)) => text::eq_ignore_ascii_case(a.as_str(), b.as_str()),
                _ => false,
            };
            let relation = if same_path(
                expected.image_path.as_str(),
                self.application.executable.as_str(),
            ) || named_alike {
                InstanceRelation::Unknown
            } else {
                InstanceRelation::Other
            };
            return Ok(
                Some(
                    InstanceObservation {
                        identity: expected.copy(),
                        role: ProcessRole::Unknown,
                        relation,
                        proxy: ProxyArguments::Unknown,
                    },
                ),
            );
        }
        if matches!(self.template, Template::Environment) {
            return Ok(
                Some(
                    InstanceObservation {
                        identity: expected.copy(),
                        role: ProcessRole::Main,
                        relation: InstanceRelation::Target,
                        proxy: ProxyArguments::Unknown,
                    },
                ),
            );
        }
        Ok(None)
    }

    /// Whether the line of a process has to go on: its last member leaves the question to its parent, and
    /// not too many were asked.
    pub fn needs_parent(&self, members: &[Member]) -> (r: bool)
        ensures
            r == (0 < members@.len() <= FAMILY_LIMIT && asks_parent(members@.last(), self.data)),
    {
        let n: usize = members.len();
        if n == 0 || n > FAMILY_LIMIT {
            return false;
        }
        match asks(&members[n - 1], self.data) {
            Ok((_, _, asked)) => asked,
            Err(_) => false,
        }
    }

    /// What a process and its ancestors tell.
    pub fn observe(
        &self,
        expected: &ProcessIdentity,
        members: &[Member],
        endpoint: Option<&Endpoint>,
    ) -> (r: Result<InstanceObservation>)
        ensures
            r == observation(*self, *expected, members@, lent(endpoint)),
    {
        let (role, relation) = classify_family(members, self.data)?;
        let mut proxy = ProxyArguments::Unknown;
        if matches!(role, ProcessRole::Main) && matches!(relation, InstanceRelation::Target)
            && members.len() > 0 {
            match endpoint {
                Some(endpoint) => {
                    proxy = tell_proxy(&members[0].arguments, members[0].address, *endpoint);
                },
                None => {},
            }
        }
        Ok(InstanceObservation { identity: expected.copy(), role, relation, proxy })
    }

    fn observe_line(
        &self,
        expected: &ProcessIdentity,
        line: &Result<Vec<Member>>,
        endpoint: Option<&Endpoint>,
    ) -> (r: Result<InstanceObservation>)
        ensures
            r == asked_observation(*self, *expected, *line, lent(endpoint)),
    {
        match line {
            Err(error) => Err(*error),
            Ok(members) => self.observe(expected, members.as_slice(), endpoint),
        }
    }

    /// What is told of a process, with the endpoint that its proxy is compared with, if any.
    pub fn inspect_with_proxy(
        &self,
        expected: &ProcessIdentity,
        caller: &ProcessIdentity,
        running: Result<bool>,
        line: &Result<Vec<Member>>,
        endpoint: Option<&Endpoint>,
    ) -> (r: Result<InstanceObservation>)
        ensures
            r == inspection(*self, *expected, caller@, running, *line, lent(endpoint)),
    {
        match self.inspect_identity(expected, caller, running)? {
            Some(observation) => Ok(observation),
            None => self.observe_line(expected, line, endpoint),
        }
    }

    /// What is told of a process, its proxy aside.
    pub fn inspect(
        &self,
        expected: &ProcessIdentity,
        caller: &ProcessIdentity,
        running: Result<bool>,
        line: &Result<Vec<Member>>,
    ) -> (r: Result<InstanceObservation>)
        ensures
            r == inspection(*self, *expected, caller@, running, *line, None),
    {
        self.inspect_with_proxy(expected, caller, running, line, None)
    }

    /// What is told of a process, its proxy compared with an endpoint.
    pub fn inspect_proxy(
        &self,
        expected: &ProcessIdentity,
        caller: &ProcessIdentity,
        running: Result<bool>,
        line: &Result<Vec<Member>>,
        endpoint: &Endpoint,
    ) -> (r: Result<InstanceObservation>)
        ensures
            r == (if !endpoint_valid(*endpoint) {
                invalid::<InstanceObservation>("INVALID_PROXY_ENDPOINT")
            } else {
                inspection(*self, *expected, caller@, running, *line, Some(*endpoint))
            }),
    {
        check_endpoint(endpoint)?;
        self.inspect_with_proxy(expected, caller, running, line, Some(endpoint))
    }

    /// What a pinned process tells. `verified` says whether it still is the process that was pinned.
    pub fn inspect_pinned(
        &self,
        verified: Result<()>,
        process: &Member,
        endpoint: &Endpoint,
    ) -> (r: Result<InstanceObservation>)
        ensures
            pinned_observation(*self, verified, *process, *endpoint, r),
    {
        match verified {
            Ok(_) => {},
            Err(error) => {
                return Err(error);
            },
        }
        if process.identity.image_file != self.application.image || matches!(
            self.template,
            Template::Environment
        ) || !endpoint.host.is_loopback() || endpoint.port == 0 {
            return Err(Error::IdentityMismatch);
        }
        let (role, relation) = classify(&process.arguments, self.data, process.named)?;
        let proxy = if matches!(role, ProcessRole::Main) && matches!(
            relation,
            InstanceRelation::Target
        ) {
            tell_proxy(&process.arguments, process.address, *endpoint)
        } else {
            ProxyArguments::Unknown
        };
        Ok(InstanceObservation { identity: process.identity.copy(), role, relation, proxy })
    }

    fn gather(
        &self,
        candidates: &[Candidate],
        caller: &ProcessIdentity,
        endpoint: Option<&Endpoint>,
        asked: bool,
        out: &mut Vec<InstanceObservation>,
    ) -> (r: Result<()>)
        ensures
            match gathered(
                *self,
                candidates@,
                caller@,
                lent(endpoint),
                asked,
                candidates@.len(),
            ) {
                Err(e) => r == Err::<(), Error>(e),
                Ok(list) => r is Ok && final(out)@ == old(out)@ + list,
            },
    {
        let ghost given = lent(endpoint);
        let ghost before = out@;
        let mut i: usize = 0;
        proof {
            assert(before + Seq::<InstanceObservation>::empty() =~= before);
        }
        while i < candidates.len()
            invariant
                i <= candidates.len(),
                given == lent(endpoint),
                before == old(out)@,
                match gathered(*self, candidates@, caller@, given, asked, i as nat) {
                    Err(_) => false,
                    Ok(list) => out@ == before + list,
                },
            decreases candidates.len() - i,
        {
            let candidate = &candidates[i];
            let quick = candidate.expected.image_file != self.application.image || matches!(
                self.template,
                Template::Environment
            );
            if quick != asked {
                let told = if asked {
                    self.observe_line(&candidate.expected, &candidate.line, endpoint)
                } else {
                    self.inspect_with_proxy(
                        &candidate.expected,
                        caller,
                        candidate.running,
                        &candidate.line,
                        endpoint,
                    )
                };
                match told {
                    Ok(observation) => {
                        out.push(observation);
                        proof {
                            let list = gathered(
                                *self,
                                candidates@,
                                caller@,
                                given,
                                asked,
                                i as nat,
                            )->Ok_0;
                            assert((before + list).push(observation) =~= before + list.push(
                                observation,
                            ));
                        }
                    },
                    Err(error) => {
                        proof {
                            gathering_stops(
                                *self,
                                candidates@,
                                caller@,
                                given,
                                asked,
                                (i + 1) as nat,
                                candidates@.len(),
                            );
                        }
                        return Err(error);
                    },
                }
            }
            i += 1;
        }
        Ok(())
    }

    /// What is told of candidates: first of those that their identity alone decides, then of those whose
    /// command line had to be asked; each group keeps its order, and the first failure decides.
    pub fn inspect_candidates(
        &self,
        candidates: &[Candidate],
        caller: &ProcessIdentity,
        endpoint: Option<&Endpoint>,
    ) -> (r: Result<Vec<InstanceObservation>>)
        ensures
            candidates_told(*self, candidates@, caller@, lent(endpoint), r),
    {
        match endpoint {
            Some(endpoint) => check_endpoint(endpoint)?,
            None => {},
        }
        let mut out: Vec<InstanceObservation> = Vec::new();
        self.gather(candidates, caller, endpoint, false, &mut out)?;
        self.gather(candidates, caller, endpoint, true, &mut out)?;
        Ok(out)
    }
}

/// A helper of a main process stays one, whatever its ancestors are: it is never told to be a main process.
pub proof fn helpers_are_never_promoted(members: Seq<Member>, data: Option<Result<FileIdentity>>)
    requires
        members.len() > 0,
        told_switches(members[0].arguments) is Some,
        role_of(told_switches(members[0].arguments)->0) == ProcessRole::Auxiliary,
    ensures
        match family(members, 0, data) {
            Ok((role, _)) => role == ProcessRole::Auxiliary,
            Err(_) => true,
        },
{
}

proof fn line_is_settled(
    members: Seq<Member>,
    more: Seq<Member>,
    i: int,
    data: Option<Result<FileIdentity>>,
)
    requires
        0 <= i < members.len(),
        members.len() > FAMILY_LIMIT || !asks_parent(members.last(), data),
    ensures
        family(members + more, i, data) == family(members, i, data),
    decreases members.len() - i,
{
    let all = members + more;
    assert(all[i] == members[i]);
    if i + 1 < members.len() {
        assert(all[i + 1] == members[i + 1]);
        line_is_settled(members, more, i + 1, data);
    }
}

/// Once a line does not have to go on, further ancestors change nothing of what it tells.
pub proof fn further_ancestors_change_nothing(
    members: Seq<Member>,
    more: Seq<Member>,
    data: Option<Result<FileIdentity>>,
)
    requires
        members.len() > 0,
        members.len() > FAMILY_LIMIT || !asks_parent(members.last(), data),
    ensures
        family(members + more, 0, data) == family(members, 0, data),
{
    line_is_settled(members, more, 0, data);
}

/// A process that says nothing of its data is never taken for an isolated instance.
pub proof fn unmanaged_original_is_never_claimed(
    switches: SwitchesView,
    data: Result<FileIdentity>,
    named: Result<FileIdentity>,
)
    requires
        switches.user_data is None,
    ensures
        classification(Some(switches), Some(data), named) != Ok::<
            (ProcessRole, InstanceRelation),
            Error,
        >((role_of(switches), InstanceRelation::Target)),
{
}

/// Two instances with different directories never claim the same process.
pub proof fn clones_are_kept_apart(
    switches: SwitchesView,
    a: FileIdentity,
    b: FileIdentity,
    named: Result<FileIdentity>,
)
    requires
        a != b,
        classification(Some(switches), Some(Ok(a)), named) == Ok::<
            (ProcessRole, InstanceRelation),
            Error,
        >((role_of(switches), InstanceRelation::Target)),
    ensures
        classification(Some(switches), Some(Ok(b)), named) != Ok::<
            (ProcessRole, InstanceRelation),
            Error,
        >((role_of(switches), InstanceRelation::Target)),
{
}

/// What is told of a process that was pinned.
pub open spec fn pinned_observation(
    target: InstanceTarget,
    verified: Result<()>,
    process: Member,
    endpoint: Endpoint,
    r: Result<InstanceObservation>,
) -> bool {
    r == (match verified {
        Err(e) => Err(e),
        Ok(_) => if process.identity.image_file != target.application.image || target.template
            == Template::Environment || !endpoint_valid(endpoint) {
            Err(Error::IdentityMismatch)
        } else {
            match member_class(process, target.data) {
                Err(e) => Err(e),
                Ok((role, relation)) => Ok(
                    InstanceObservation {
                        identity: process.identity,
                        role,
                        relation,
                        proxy: if role == ProcessRole::Main && relation
                            == InstanceRelation::Target {
                            proxy_told(
                                told_switches(process.arguments),
                                process.address,
                                endpoint,
                            )
                        } else {
                            ProxyArguments::Unknown
                        },
                    },
                ),
            }
        },
    })
}

/// What a process's identity alone tells.
pub open spec fn identity_observation(
    target: InstanceTarget,
    expected: ProcessIdentity,
    caller: ProcessView,
    running: Result<bool>,
    r: Result<Option<InstanceObservation>>,
) -> bool {
    match inspectable(expected@, caller, running) {
        Err(e) => r == Err::<Option<InstanceObservation>, Error>(e),
        Ok(_) => match quick_class(target, expected@) {
            None => r == Ok::<Option<InstanceObservation>, Error>(None),
            Some((role, relation)) => r == Ok::<Option<InstanceObservation>, Error>(
                Some(
                    InstanceObservation {
                        identity: expected,
                        role,
                        relation,
                        proxy: ProxyArguments::Unknown,
                    },
                ),
            ),
        },
    }
}

/// What is told of the candidates.
pub open spec fn candidates_told(
    target: InstanceTarget,
    candidates: Seq<Candidate>,
    caller: ProcessView,
    endpoint: Option<Endpoint>,
    r: Result<Vec<InstanceObservation>>,
) -> bool {
    if endpoint is Some && !endpoint_valid(endpoint->0) {
        r == invalid::<Vec<InstanceObservation>>("INVALID_PROXY_ENDPOINT")
    } else {
        match (
            gathered(target, candidates, caller, endpoint, false, candidates.len()),
            gathered(target, candidates, caller, endpoint, true, candidates.len()),
        ) {
            (Err(e), _) => r == Err::<Vec<InstanceObservation>, Error>(e),
            (Ok(_), Err(e)) => r == Err::<Vec<InstanceObservation>, Error>(e),
            (Ok(decided), Ok(asked)) => r matches Ok(list) && list@ == decided + asked,
        }
    }
}

} // verus!

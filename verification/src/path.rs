//! The parts of Windows path syntax that the rules of this library depend on. A path is a text;
//! nothing here touches a file system.
use vstd::prelude::*;
use vstd::string::*;
use crate::text;

verus! {

/// A character that separates the components of a path.
pub open spec fn separator(c: char) -> bool {
    c == '\\' || c == '/'
}

/// A letter that can name a drive.
pub open spec fn drive_letter(c: char) -> bool {
    ('a' <= c && c <= 'z') || ('A' <= c && c <= 'Z')
}

/// Whether a character separates the components of a path.
pub fn is_separator(c: char) -> (r: bool)
    ensures
        r == separator(c),
{
    c == '\\' || c == '/'
}

/// Whether a character is an ASCII letter.
pub fn is_letter(c: char) -> (r: bool)
    ensures
        r == drive_letter(c),
{
    ('a' <= c && c <= 'z') || ('A' <= c && c <= 'Z')
}

/// Whether a character splits a path: the backslash always, the slash where `slashes` says so.
pub open spec fn splits(c: char, slashes: bool) -> bool {
    c == '\\' || (slashes && c == '/')
}

/// The pieces between the separators of a text, empty ones included.
pub open spec fn pieces(text: Seq<char>, slashes: bool) -> Seq<Seq<char>>
    decreases text.len(),
{
    if text.len() == 0 {
        seq![Seq::empty()]
    } else {
        let front = pieces(text.drop_last(), slashes);
        if splits(text.last(), slashes) {
            front.push(Seq::empty())
        } else {
            front.drop_last().push(front.last().push(text.last()))
        }
    }
}

/// There is at least one piece.
pub proof fn pieces_nonempty(text: Seq<char>, slashes: bool)
    ensures
        pieces(text, slashes).len() > 0,
    decreases text.len(),
{
    if text.len() > 0 {
        pieces_nonempty(text.drop_last(), slashes);
    }
}

/// The characters of pieces, in order.
pub open spec fn piece_views(list: Seq<Vec<char>>) -> Seq<Seq<char>> {
    list.map_values(|piece: Vec<char>| piece@)
}

/// Split a text at its separators.
pub fn split(text: &[char], slashes: bool) -> (r: Vec<Vec<char>>)
    ensures
        piece_views(r@) == pieces(text@, slashes),
        r@.len() > 0,
{
    let mut out: Vec<Vec<char>> = Vec::new();
    let mut piece: Vec<char> = Vec::new();
    let mut i: usize = 0;
    proof {
        assert(piece_views(out@).push(piece@) =~= pieces(text@.take(0), slashes));
    }
    while i < text.len()
        invariant
            i <= text.len(),
            piece_views(out@).push(piece@) == pieces(text@.take(i as int), slashes),
        decreases text.len() - i,
    {
        let c = text[i];
        let ghost front = pieces(text@.take(i as int), slashes);
        let ghost done = piece_views(out@);
        let ghost part = piece@;
        proof {
            let longer = text@.take(i + 1);
            assert(longer.drop_last() =~= text@.take(i as int));
            assert(longer.last() == c);
            assert(front.last() == part);
            assert(front.drop_last() =~= done);
        }
        if c == '\\' || (slashes && c == '/') {
            out.push(piece);
            piece = Vec::new();
            proof {
                assert(piece_views(out@) =~= done.push(part));
                assert(piece@ =~= Seq::<char>::empty());
                assert(piece_views(out@).push(piece@) =~= front.push(Seq::empty()));
            }
        } else {
            piece.push(c);
            proof {
                assert(piece_views(out@).push(piece@) =~= front.drop_last().push(
                    front.last().push(c),
                ));
            }
        }
        i += 1;
    }
    let ghost done = piece_views(out@);
    let ghost part = piece@;
    out.push(piece);
    proof {
        assert(text@.take(text@.len() as int) =~= text@);
        assert(piece_views(out@) =~= done.push(part));
    }
    out
}

/// What a path begins with: a drive, a server with a share, a device, or one of the forms behind `\\\\?\\`,
/// in which only backslashes separate.
#[derive(Clone, Copy, Debug, PartialEq, Eq, Structural)]
pub enum Prefix {
    Absent,
    Disk,
    Network,
    Device,
    Verbatim,
    VerbatimDisk,
    VerbatimNetwork,
}

/// The place of the first character from `from` on that splits a path; its length if there is none.
pub open spec fn split_place(path: Seq<char>, from: int, slashes: bool) -> int
    decreases path.len() - from,
{
    if from < 0 || from >= path.len() {
        path.len() as int
    } else if splits(path[from], slashes) {
        from
    } else {
        split_place(path, from + 1, slashes)
    }
}

/// A path that begins with `\\\\?\\`.
pub open spec fn begins_verbatim(path: Seq<char>) -> bool {
    path.len() >= 4 && path[0] == '\\' && path[1] == '\\' && path[2] == '?' && path[3] == '\\'
}

/// A drive stands at this place.
pub open spec fn drive_at(path: Seq<char>, at: int) -> bool {
    at + 2 <= path.len() && drive_letter(path[at]) && path[at + 1] == ':'
}

/// What stands behind `\\\\?\\`: a server, exactly a drive, or any other name.
pub open spec fn verbatim_prefix(path: Seq<char>) -> Prefix {
    if path.len() >= 8 && path[4] == 'U' && path[5] == 'N' && path[6] == 'C' && separator(path[7]) {
        Prefix::VerbatimNetwork
    } else if drive_at(path, 4) && (path.len() == 6 || separator(path[6])) {
        Prefix::VerbatimDisk
    } else {
        Prefix::Verbatim
    }
}

/// A server and a share, neither of them empty, behind two separators.
pub open spec fn share_named(path: Seq<char>) -> bool {
    let end = split_place(path, 2, true);
    2 < end && end + 1 < path.len() && !separator(path[end + 1])
}

/// What a path begins with.
pub open spec fn prefix(path: Seq<char>) -> Prefix {
    if path.len() >= 2 && separator(path[0]) && separator(path[1]) {
        if begins_verbatim(path) {
            verbatim_prefix(path)
        } else if path.len() >= 4 && path[2] == '.' && separator(path[3]) {
            Prefix::Device
        } else if share_named(path) {
            Prefix::Network
        } else {
            Prefix::Absent
        }
    } else if drive_at(path, 0) {
        Prefix::Disk
    } else {
        Prefix::Absent
    }
}

/// Prefixes behind which only backslashes separate.
pub open spec fn verbatim(kind: Prefix) -> bool {
    kind == Prefix::Verbatim || kind == Prefix::VerbatimDisk || kind == Prefix::VerbatimNetwork
}

/// Where the names of a server and a share end, of which the first begins at `from`.
pub open spec fn share_end(path: Seq<char>, from: int, slashes: bool) -> int {
    let server = split_place(path, from, slashes);
    let share = split_place(path, server + 1, slashes);
    if server + 1 < share {
        share
    } else {
        server
    }
}

/// Where the prefix of a path ends.
pub open spec fn prefix_end(path: Seq<char>) -> int {
    match prefix(path) {
        Prefix::Absent => 0,
        Prefix::Disk => 2,
        Prefix::Network => share_end(path, 2, true),
        Prefix::Device => split_place(path, 4, true),
        Prefix::Verbatim => split_place(path, 4, false),
        Prefix::VerbatimDisk => 6,
        Prefix::VerbatimNetwork => share_end(path, 8, false),
    }
}

/// A separator stands behind the prefix of a path.
pub open spec fn rooted(path: Seq<char>) -> bool {
    prefix_end(path) < path.len() && separator(path[prefix_end(path)])
}

/// A path that starts at a root. Only a drive can be named without its root.
pub open spec fn has_root(path: Seq<char>) -> bool {
    rooted(path) || (prefix(path) != Prefix::Absent && prefix(path) != Prefix::Disk)
}

/// A path that names its drive or server and its root, so that no current directory takes part in
/// its meaning.
pub open spec fn absolute(path: Seq<char>) -> bool {
    prefix(path) != Prefix::Absent && has_root(path)
}

/// A path that starts with the current directory, written as `.`.
pub open spec fn starts_here(path: Seq<char>) -> bool {
    let at = prefix_end(path);
    !has_root(path) && at < path.len() && path[at] == '.' && (at + 1 == path.len() || separator(
        path[at + 1],
    ))
}

/// Where the names of a path begin, behind its prefix and its root.
pub open spec fn body_start(path: Seq<char>) -> int {
    prefix_end(path) + (if rooted(path) || starts_here(path) {
        1int
    } else {
        0int
    })
}

/// What stands between the separators behind the prefix and the root of a path, empty pieces included.
pub open spec fn parts(path: Seq<char>) -> Seq<Seq<char>> {
    pieces(path.skip(body_start(path)), !verbatim(prefix(path)))
}

/// A piece that counts for nothing: an empty one, or `.` outside of `\\\\?\\`.
pub open spec fn skipped(piece: Seq<char>, verbatim: bool) -> bool {
    piece.len() == 0 || (!verbatim && piece == seq!['.'])
}

/// The last piece that counts.
pub open spec fn last_kept(list: Seq<Seq<char>>, verbatim: bool) -> Option<Seq<char>>
    decreases list.len(),
{
    if list.len() == 0 {
        None
    } else if skipped(list.last(), verbatim) {
        last_kept(list.drop_last(), verbatim)
    } else {
        Some(list.last())
    }
}

/// A piece that is `.` or `..`.
pub open spec fn dots(piece: Seq<char>) -> bool {
    piece == seq!['.'] || piece == seq!['.', '.']
}

/// The last name of a path. A path that ends in its prefix, its root or `..` has none.
pub open spec fn last_component(path: Seq<char>) -> Option<Seq<char>> {
    match last_kept(parts(path), verbatim(prefix(path))) {
        Some(piece) => if dots(piece) {
            None
        } else {
            Some(piece)
        },
        None => None,
    }
}

/// A path with a step upwards.
pub open spec fn goes_up(path: Seq<char>) -> bool {
    parts(path).contains(seq!['.', '.'])
}

proof fn split_place_bounds(path: Seq<char>, from: int, slashes: bool)
    ensures
        0 <= split_place(path, from, slashes) <= path.len(),
        0 <= from <= path.len() ==> from <= split_place(path, from, slashes),
    decreases path.len() - from,
{
    if 0 <= from < path.len() && !splits(path[from], slashes) {
        split_place_bounds(path, from + 1, slashes);
    }
}

fn find_split(x: &[char], from: usize, slashes: bool) -> (r: usize)
    ensures
        r == split_place(x@, from as int, slashes),
        r <= x@.len(),
        from <= x@.len() ==> from <= r,
{
    let mut i: usize = from;
    while i < x.len() && !(x[i] == '\\' || (slashes && x[i] == '/'))
        invariant
            from <= i,
            from <= x@.len() ==> i <= x@.len(),
            split_place(x@, from as int, slashes) == split_place(x@, i as int, slashes),
        decreases x.len() - i,
    {
        i += 1;
    }
    proof {
        split_place_bounds(x@, i as int, slashes);
    }
    if i < x.len() {
        i
    } else {
        x.len()
    }
}

/// What a path begins with, where that ends and where its names begin.
#[derive(Clone, Copy, Debug, PartialEq, Eq, Structural)]
pub struct Anchor {
    pub kind: Prefix,
    pub end: usize,
    pub rooted: bool,
    pub body: usize,
}

fn prefix_kind(x: &[char]) -> (r: Prefix)
    ensures
        r == prefix(x@),
{
    let n: usize = x.len();
    if n >= 2 && is_separator(x[0]) && is_separator(x[1]) {
        if n >= 4 && x[0] == '\\' && x[1] == '\\' && x[2] == '?' && x[3] == '\\' {
            if n >= 8 && x[4] == 'U' && x[5] == 'N' && x[6] == 'C' && is_separator(x[7]) {
                return Prefix::VerbatimNetwork;
            }
            if n >= 6 && is_letter(x[4]) && x[5] == ':' && (n == 6 || is_separator(x[6])) {
                return Prefix::VerbatimDisk;
            }
            return Prefix::Verbatim;
        }
        if n >= 4 && x[2] == '.' && is_separator(x[3]) {
            return Prefix::Device;
        }
        let end: usize = find_split(x, 2, true);
        if 2 < end && end < n && n - end > 1 && !is_separator(x[end + 1]) {
            return Prefix::Network;
        }
        return Prefix::Absent;
    }
    if n >= 2 && is_letter(x[0]) && x[1] == ':' {
        return Prefix::Disk;
    }
    Prefix::Absent
}

fn find_share_end(x: &[char], from: usize, slashes: bool) -> (r: usize)
    requires
        from <= x@.len(),
    ensures
        r == share_end(x@, from as int, slashes),
        r <= x@.len(),
{
    let server: usize = find_split(x, from, slashes);
    if server == x.len() {
        proof {
            split_place_bounds(x@, server + 1, slashes);
        }
        return server;
    }
    let share: usize = find_split(x, server + 1, slashes);
    if server + 1 < share {
        share
    } else {
        server
    }
}

/// Find what a path begins with, where that ends and where its names begin.
pub fn anchor(x: &[char]) -> (r: Anchor)
    ensures
        r.kind == prefix(x@),
        r.end == prefix_end(x@),
        r.rooted == rooted(x@),
        r.body == body_start(x@),
        r.end <= r.body <= x@.len(),
{
    let kind = prefix_kind(x);
    let end: usize = match kind {
        Prefix::Absent => 0,
        Prefix::Disk => 2,
        Prefix::Network => find_share_end(x, 2, true),
        Prefix::Device => find_split(x, 4, true),
        Prefix::Verbatim => find_split(x, 4, false),
        Prefix::VerbatimDisk => 6,
        Prefix::VerbatimNetwork => find_share_end(x, 8, false),
    };
    let n: usize = x.len();
    let rooted = end < n && is_separator(x[end]);
    let whole = rooted || !matches!(kind, Prefix::Absent | Prefix::Disk);
    let here = !whole && end < n && x[end] == '.' && (n - end == 1 || is_separator(x[end + 1]));
    let body: usize = if rooted || here {
        end + 1
    } else {
        end
    };
    Anchor { kind, end, rooted, body }
}

fn is_verbatim(kind: Prefix) -> (r: bool)
    ensures
        r == verbatim(kind),
{
    matches!(kind, Prefix::Verbatim | Prefix::VerbatimDisk | Prefix::VerbatimNetwork)
}

/// Whether a path names its drive or server and its root.
pub fn is_absolute(path: &str) -> (r: bool)
    ensures
        r == absolute(path@),
{
    let x = text::chars(path);
    let found = anchor(x.as_slice());
    match found.kind {
        Prefix::Absent => false,
        Prefix::Disk => found.rooted,
        _ => true,
    }
}

fn tail(x: &[char], from: usize) -> (r: Vec<char>)
    requires
        from <= x@.len(),
    ensures
        r@ == x@.skip(from as int),
{
    let mut out: Vec<char> = Vec::new();
    let mut i: usize = from;
    while i < x.len()
        invariant
            from <= i <= x.len(),
            out@ == x@.subrange(from as int, i as int),
        decreases x.len() - i,
    {
        out.push(x[i]);
        i += 1;
        proof {
            assert(x@.subrange(from as int, i as int) =~= x@.subrange(from as int, i - 1).push(
                x@[i - 1],
            ));
        }
    }
    proof {
        assert(x@.subrange(from as int, x@.len() as int) =~= x@.skip(from as int));
    }
    out
}

/// Split the names of a path, behind its prefix and its root.
pub fn split_parts(x: &[char], found: Anchor) -> (r: Vec<Vec<char>>)
    requires
        found.kind == prefix(x@),
        found.body == body_start(x@),
        found.body <= x@.len(),
    ensures
        piece_views(r@) == parts(x@),
        r@.len() > 0,
{
    split(tail(x, found.body).as_slice(), !is_verbatim(found.kind))
}

pub(crate) fn is_here(piece: &[char]) -> (r: bool)
    ensures
        r == (piece@ == seq!['.']),
{
    let found = piece.len() == 1 && piece[0] == '.';
    proof {
        assert((piece@ =~= seq!['.']) == found);
    }
    found
}

pub(crate) fn is_up(piece: &[char]) -> (r: bool)
    ensures
        r == (piece@ == seq!['.', '.']),
{
    let found = piece.len() == 2 && piece[0] == '.' && piece[1] == '.';
    proof {
        assert((piece@ =~= seq!['.', '.']) == found);
    }
    found
}

/// The last name of a path, if it has one.
pub fn file_name(path: &str) -> (r: Option<String>)
    ensures
        text::option_view(r) == last_component(path@),
{
    let x = text::chars(path);
    let found = anchor(x.as_slice());
    let list = split_parts(x.as_slice(), found);
    let kind = is_verbatim(found.kind);
    let ghost views = parts(path@);
    let mut n: usize = list.len();
    proof {
        assert(views.take(views.len() as int) =~= views);
    }
    while n > 0 && (list[n - 1].len() == 0 || (!kind && is_here(list[n - 1].as_slice())))
        invariant
            n <= list@.len(),
            piece_views(list@) == views,
            last_kept(views, kind) == last_kept(views.take(n as int), kind),
        decreases n,
    {
        proof {
            assert(views[n - 1] == list@[n - 1]@);
            assert(views.take(n as int).drop_last() =~= views.take(n - 1));
            assert(views.take(n as int).last() == views[n - 1]);
        }
        n -= 1;
    }
    if n == 0 {
        return None;
    }
    let piece = &list[n - 1];
    proof {
        assert(views[n - 1] == list@[n - 1]@);
        assert(views.take(n as int).last() == piece@);
        assert(last_kept(views, kind) == Some(piece@));
    }
    if is_here(piece.as_slice()) || is_up(piece.as_slice()) {
        None
    } else {
        Some(text::from_chars(piece.as_slice()))
    }
}

/// Whether a path has a step upwards.
pub fn is_going_up(path: &str) -> (r: bool)
    ensures
        r == goes_up(path@),
{
    let x = text::chars(path);
    let found = anchor(x.as_slice());
    let list = split_parts(x.as_slice(), found);
    let ghost views = parts(path@);
    let mut i: usize = 0;
    while i < list.len()
        invariant
            i <= list@.len(),
            piece_views(list@) == views,
            views == parts(path@),
            forall|k: int| 0 <= k < i ==> views[k] != seq!['.', '.'],
        decreases list.len() - i,
    {
        proof {
            assert(views[i as int] == list@[i as int]@);
        }
        if is_up(list[i].as_slice()) {
            proof {
                assert(views.contains(views[i as int]));
            }
            return true;
        }
        i += 1;
    }
    false
}

/// Where the last piece before `end` begins.
pub open spec fn piece_start(path: Seq<char>, start: int, end: int, slashes: bool) -> int
    decreases end - start,
{
    if end <= start {
        start
    } else if splits(path[end - 1], slashes) {
        end
    } else {
        piece_start(path, start, end - 1, slashes)
    }
}

/// Where a path ends once the pieces at its end that count for nothing are taken away, down to `start`.
pub open spec fn kept_end(path: Seq<char>, start: int, end: int, verbatim: bool) -> int
    decreases end - start,
{
    let at = piece_start(path, start, end, !verbatim);
    if end <= start {
        start
    } else if !skipped(path.subrange(at, end), verbatim) {
        end
    } else if at <= start || at > end {
        start
    } else {
        kept_end(path, start, at - 1, verbatim)
    }
}

/// The path without its last component. A path that ends in its prefix or its root has none.
pub open spec fn parent_path(path: Seq<char>) -> Option<Seq<char>> {
    let start = body_start(path);
    let kind = verbatim(prefix(path));
    let end = kept_end(path, start, path.len() as int, kind);
    if end > start {
        let at = piece_start(path, start, end, !kind);
        Some(
            path.take(
                kept_end(
                    path,
                    start,
                    if at > start {
                        at - 1
                    } else {
                        start
                    },
                    kind,
                ),
            ),
        )
    } else if starts_here(path) {
        Some(path.take(prefix_end(path)))
    } else {
        None
    }
}

fn find_piece(x: &[char], start: usize, end: usize, slashes: bool) -> (r: usize)
    requires
        start <= end <= x@.len(),
    ensures
        r == piece_start(x@, start as int, end as int, slashes),
        start <= r <= end,
{
    let mut at: usize = end;
    while at > start && !(x[at - 1] == '\\' || (slashes && x[at - 1] == '/'))
        invariant
            start <= at <= end <= x@.len(),
            piece_start(x@, start as int, end as int, slashes) == piece_start(
                x@,
                start as int,
                at as int,
                slashes,
            ),
        decreases at,
    {
        at -= 1;
    }
    at
}

fn find_kept_end(x: &[char], start: usize, end: usize, verbatim: bool) -> (r: usize)
    requires
        start <= end <= x@.len(),
    ensures
        r == kept_end(x@, start as int, end as int, verbatim),
        start <= r <= end,
{
    let mut last: usize = end;
    while last > start
        invariant
            start <= last <= end <= x@.len(),
            kept_end(x@, start as int, end as int, verbatim) == kept_end(
                x@,
                start as int,
                last as int,
                verbatim,
            ),
        decreases last,
    {
        let at: usize = find_piece(x, start, last, !verbatim);
        let here = last - at == 1 && x[at] == '.';
        proof {
            let piece = x@.subrange(at as int, last as int);
            if piece.len() == 1 {
                assert(piece[0] == x@[at as int]);
            }
            assert((piece =~= seq!['.']) == here);
        }
        if !(at == last || (!verbatim && here)) {
            return last;
        }
        if at == start {
            return start;
        }
        last = at - 1;
    }
    start
}

/// The path without its last component.
pub fn parent(path: &str) -> (r: Option<String>)
    ensures
        text::option_view(r) == parent_path(path@),
{
    let x = text::chars(path);
    let found = anchor(x.as_slice());
    let kind = is_verbatim(found.kind);
    let start: usize = found.body;
    let end: usize = find_kept_end(x.as_slice(), start, x.len(), kind);
    if end > start {
        let at: usize = find_piece(x.as_slice(), start, end, !kind);
        let before: usize = if at > start {
            at - 1
        } else {
            start
        };
        let cut: usize = find_kept_end(x.as_slice(), start, before, kind);
        Some(crate::etw::prefix(path, cut))
    } else if !found.rooted && found.body > found.end {
        Some(crate::etw::prefix(path, found.end))
    } else {
        None
    }
}

/// The names of a path: the pieces that count.
pub open spec fn kept(list: Seq<Seq<char>>, verbatim: bool) -> Seq<Seq<char>>
    decreases list.len(),
{
    if list.len() == 0 {
        Seq::empty()
    } else {
        let front = kept(list.drop_last(), verbatim);
        if skipped(list.last(), verbatim) {
            front
        } else {
            front.push(list.last())
        }
    }
}

/// Names once pieces are followed from there: a name leads down, `..` leads up from a name.
pub open spec fn followed(names: Seq<Seq<char>>, list: Seq<Seq<char>>) -> Seq<Seq<char>>
    decreases list.len(),
{
    if list.len() == 0 {
        names
    } else {
        let before = followed(names, list.drop_last());
        let piece = list.last();
        if skipped(piece, false) {
            before
        } else if piece == seq!['.', '.'] {
            if before.len() > 0 && !dots(before.last()) {
                before.drop_last()
            } else {
                before
            }
        } else {
            before.push(piece)
        }
    }
}

/// Names with backslashes between them.
pub open spec fn joined(names: Seq<Seq<char>>) -> Seq<char>
    decreases names.len(),
{
    if names.len() == 0 {
        Seq::empty()
    } else if names.len() == 1 {
        names[0]
    } else {
        joined(names.drop_last()).push('\\') + names.last()
    }
}

/// A path behind `\\\\?\\` once another one is followed from it: since Windows takes such a path literally,
/// the result is written out without `.` and `..` of the other path, and with backslashes alone.
pub open spec fn verbatim_pushed(base: Seq<char>, part: Seq<char>) -> Seq<char> {
    let names = followed(
        if rooted(part) {
            Seq::empty()
        } else {
            kept(parts(base), true)
        },
        parts(part),
    );
    base.take(prefix_end(base)) + (if rooted(base) || rooted(part) || names.len() > 0 {
        seq!['\\']
    } else {
        Seq::empty()
    }) + joined(names)
}

/// A separator has to stand between a path and what is put behind it.
pub open spec fn needs_separator(base: Seq<char>) -> bool {
    base.len() > 0 && !separator(base.last()) && !(prefix(base) == Prefix::Disk && base.len() == 2)
}

/// A path once another one is followed from it. A path with a prefix of its own takes its place, one with a
/// root keeps its prefix alone.
pub open spec fn pushed(base: Seq<char>, part: Seq<char>) -> Seq<char> {
    if prefix(part) != Prefix::Absent {
        part
    } else if verbatim(prefix(base)) && part.len() > 0 {
        verbatim_pushed(base, part)
    } else if rooted(part) {
        base.take(prefix_end(base)) + part
    } else if needs_separator(base) {
        base.push('\\') + part
    } else {
        base + part
    }
}

fn copy_piece(piece: &[char]) -> (r: Vec<char>)
    ensures
        r@ == piece@,
{
    let r = tail(piece, 0);
    proof {
        assert(piece@.skip(0) =~= piece@);
    }
    r
}

fn keep(list: &[Vec<char>]) -> (r: Vec<Vec<char>>)
    ensures
        piece_views(r@) == kept(piece_views(list@), true),
{
    let ghost views = piece_views(list@);
    let mut out: Vec<Vec<char>> = Vec::new();
    let mut i: usize = 0;
    proof {
        assert(piece_views(out@) =~= kept(views.take(0), true));
    }
    while i < list.len()
        invariant
            i <= list@.len(),
            views == piece_views(list@),
            piece_views(out@) == kept(views.take(i as int), true),
        decreases list.len() - i,
    {
        let ghost before = piece_views(out@);
        proof {
            assert(views.take(i + 1).drop_last() =~= views.take(i as int));
            assert(views.take(i + 1).last() == list@[i as int]@);
        }
        if list[i].len() > 0 {
            out.push(copy_piece(list[i].as_slice()));
            proof {
                assert(piece_views(out@) =~= before.push(list@[i as int]@));
            }
        }
        i += 1;
    }
    proof {
        assert(views.take(views.len() as int) =~= views);
    }
    out
}

fn follow(names: &mut Vec<Vec<char>>, list: &[Vec<char>])
    ensures
        piece_views(final(names)@) == followed(piece_views(old(names)@), piece_views(list@)),
{
    let ghost first = piece_views(names@);
    let ghost views = piece_views(list@);
    let mut i: usize = 0;
    proof {
        assert(views.take(0) =~= Seq::empty());
    }
    while i < list.len()
        invariant
            i <= list@.len(),
            views == piece_views(list@),
            piece_views(names@) == followed(first, views.take(i as int)),
        decreases list.len() - i,
    {
        let ghost before = piece_views(names@);
        let piece = &list[i];
        proof {
            assert(views.take(i + 1).drop_last() =~= views.take(i as int));
            assert(views.take(i + 1).last() == piece@);
        }
        if piece.len() == 0 || is_here(piece.as_slice()) {
        } else if is_up(piece.as_slice()) {
            let n: usize = names.len();
            if n > 0 {
                proof {
                    assert(before.last() == names@[n - 1]@);
                }
                if !is_here(names[n - 1].as_slice()) && !is_up(names[n - 1].as_slice()) {
                    names.truncate(n - 1);
                    proof {
                        assert(piece_views(names@) =~= before.drop_last());
                    }
                }
            }
        } else {
            names.push(copy_piece(piece.as_slice()));
            proof {
                assert(piece_views(names@) =~= before.push(piece@));
            }
        }
        i += 1;
    }
    proof {
        assert(views.take(views.len() as int) =~= views);
    }
}

fn join_names(out: &mut String, names: &[Vec<char>])
    ensures
        final(out)@ == old(out)@ + joined(piece_views(names@)),
{
    let ghost first = out@;
    let ghost views = piece_views(names@);
    let mut i: usize = 0;
    proof {
        assert(views.take(0) =~= Seq::empty());
        assert(out@ =~= first + joined(views.take(0)));
    }
    while i < names.len()
        invariant
            i <= names@.len(),
            views == piece_views(names@),
            out@ == first + joined(views.take(i as int)),
        decreases names.len() - i,
    {
        let ghost before = out@;
        if i > 0 {
            out.push('\\');
        }
        out.append(text::from_chars(names[i].as_slice()).as_str());
        proof {
            let longer = views.take(i + 1);
            assert(longer.drop_last() =~= views.take(i as int));
            assert(longer.last() == names@[i as int]@);
            if i == 0 {
                assert(longer[0] == names@[0]@);
                assert(out@ =~= first + joined(longer));
            } else {
                assert(out@ =~= first + joined(longer));
            }
        }
        i += 1;
    }
    proof {
        assert(views.take(views.len() as int) =~= views);
    }
}

/// A path once another one is followed from it.
pub fn push(base: &str, part: &str) -> (r: String)
    ensures
        r@ == pushed(base@, part@),
{
    let y = text::chars(part);
    let added = anchor(y.as_slice());
    if !matches!(added.kind, Prefix::Absent) {
        return part.to_owned();
    }
    let x = text::chars(base);
    let found = anchor(x.as_slice());
    if is_verbatim(found.kind) && y.len() > 0 {
        let mut names = if added.rooted {
            Vec::new()
        } else {
            keep(split_parts(x.as_slice(), found).as_slice())
        };
        proof {
            if added.rooted {
                assert(piece_views(names@) =~= Seq::empty());
            }
        }
        follow(&mut names, split_parts(y.as_slice(), added).as_slice());
        let mut out = crate::etw::prefix(base, found.end);
        if found.rooted || added.rooted || names.len() > 0 {
            out.push('\\');
        }
        proof {
            assert(piece_views(names@).len() == names@.len());
            if !(found.rooted || added.rooted || names.len() > 0) {
                assert(out@ =~= base@.take(prefix_end(base@)) + Seq::<char>::empty());
            } else {
                assert(out@ =~= base@.take(prefix_end(base@)) + seq!['\\']);
            }
        }
        join_names(&mut out, names.as_slice());
        return out;
    }
    if added.rooted {
        return text::join(crate::etw::prefix(base, found.end).as_str(), part);
    }
    let n: usize = x.len();
    let mut out = base.to_owned();
    if n > 0 && !is_separator(x[n - 1]) && !(matches!(found.kind, Prefix::Disk) && n == 2) {
        out.push('\\');
    }
    out.append(part);
    out
}

/// A name that leads to one place below a path: it is not empty, has no separator, is neither `.` nor `..`, and
/// names no drive.
pub open spec fn plain_name(name: Seq<char>) -> bool {
    name.len() > 0 && !dots(name) && !name.contains('\\') && !name.contains('/') && !drive_at(name, 0)
}

/// What a plain name is put behind depends on the path alone.
pub open spec fn front(base: Seq<char>) -> Seq<char> {
    if verbatim(prefix(base)) {
        let names = kept(parts(base), true);
        base.take(prefix_end(base)) + seq!['\\'] + (if names.len() == 0 {
            Seq::empty()
        } else {
            joined(names).push('\\')
        })
    } else if needs_separator(base) {
        base.push('\\')
    } else {
        base
    }
}

proof fn plain_pieces(name: Seq<char>, n: int)
    requires
        0 <= n <= name.len(),
        !name.contains('\\'),
        !name.contains('/'),
    ensures
        pieces(name.take(n), true) == seq![name.take(n)],
    decreases n,
{
    let t = name.take(n);
    if n > 0 {
        plain_pieces(name, n - 1);
        assert(t.drop_last() =~= name.take(n - 1));
        assert(name.contains(name[n - 1]));
        assert(pieces(t, true) =~= seq![t.drop_last().push(t.last())]);
        assert(t.drop_last().push(t.last()) =~= t);
    } else {
        assert(t =~= Seq::empty());
    }
}

/// A plain name is put behind the path, whatever the path is.
pub proof fn plain_names_are_appended(base: Seq<char>, name: Seq<char>)
    requires
        plain_name(name),
    ensures
        pushed(base, name) == front(base) + name,
{
    assert(name.contains(name[0]));
    if name.len() >= 2 {
        assert(name.contains(name[1]));
    }
    assert(prefix(name) == Prefix::Absent);
    assert(!rooted(name));
    assert(!starts_here(name)) by {
        if name[0] == '.' {
            if name.len() == 1 {
                assert(name =~= seq!['.']);
            } else {
                assert(!separator(name[1]));
            }
        }
    }
    assert(name.skip(0) =~= name);
    assert(name.take(name.len() as int) =~= name);
    plain_pieces(name, name.len() as int);
    assert(parts(name) == seq![name]);
    let names = kept(parts(base), true);
    assert(seq![name].drop_last() =~= Seq::<Seq<char>>::empty());
    assert(followed(names, Seq::<Seq<char>>::empty()) == names);
    assert(followed(names, seq![name]) == names.push(name));
    if verbatim(prefix(base)) {
        assert(names.push(name).drop_last() =~= names);
        assert(pushed(base, name) =~= front(base) + name);
    } else {
        assert(pushed(base, name) =~= front(base) + name);
    }
}

proof fn two_pieces(first: Seq<char>, second: Seq<char>, n: int)
    requires
        0 <= n <= second.len(),
        !first.contains('\\'),
        !first.contains('/'),
        !second.contains('\\'),
        !second.contains('/'),
    ensures
        pieces(first.push('\\') + second.take(n), true) == seq![first, second.take(n)],
    decreases n,
{
    let t = first.push('\\') + second.take(n);
    if n == 0 {
        assert(t =~= first.push('\\'));
        assert(t.drop_last() =~= first);
        plain_pieces(first, first.len() as int);
        assert(first.take(first.len() as int) =~= first);
        assert(second.take(0) =~= Seq::<char>::empty());
        assert(pieces(t, true) =~= seq![first, second.take(0)]);
    } else {
        two_pieces(first, second, n - 1);
        assert(t.drop_last() =~= first.push('\\') + second.take(n - 1));
        assert(t.last() == second[n - 1]);
        assert(second.contains(second[n - 1]));
        assert(second.take(n - 1).push(second[n - 1]) =~= second.take(n));
        let front = seq![first, second.take(n - 1)];
        assert(front.drop_last() =~= seq![first]);
        assert(pieces(t, true) =~= seq![first, second.take(n)]);
    }
}

/// Two plain names with a backslash between them are put behind the path, whatever the path is.
pub proof fn two_names_are_appended(base: Seq<char>, first: Seq<char>, second: Seq<char>)
    requires
        plain_name(first),
        plain_name(second),
    ensures
        pushed(base, first + seq!['\\'] + second) == front(base) + (first + seq!['\\'] + second),
{
    let name = first + seq!['\\'] + second;
    assert(name =~= first.push('\\') + second);
    assert(first.contains(first[0]));
    assert(name[0] == first[0]);
    if first.len() >= 2 {
        assert(first.contains(first[1]));
        assert(name[1] == first[1]);
    } else {
        assert(name[1] == '\\');
    }
    assert(prefix(name) == Prefix::Absent);
    assert(!rooted(name));
    assert(!starts_here(name)) by {
        if name[0] == '.' {
            if first.len() == 1 {
                assert(first =~= seq!['.']);
            }
        }
    }
    assert(name.skip(0) =~= name);
    two_pieces(first, second, second.len() as int);
    assert(second.take(second.len() as int) =~= second);
    assert(parts(name) == seq![first, second]);
    let names = kept(parts(base), true);
    let both = seq![first, second];
    assert(both.drop_last() =~= seq![first]);
    assert(seq![first].drop_last() =~= Seq::<Seq<char>>::empty());
    assert(followed(names, Seq::<Seq<char>>::empty()) == names);
    assert(followed(names, seq![first]) == names.push(first));
    assert(followed(names, both) == names.push(first).push(second));
    if verbatim(prefix(base)) {
        let all = names.push(first).push(second);
        assert(all.drop_last() =~= names.push(first));
        assert(names.push(first).drop_last() =~= names);
        let one = names.push(first);
        assert(all.last() == second && one.last() == first && one[0] == if names.len() == 0 {
            first
        } else {
            names[0]
        });
        assert(joined(all) == joined(one).push('\\') + second);
        assert(joined(one) == if names.len() == 0 {
            first
        } else {
            joined(names).push('\\') + first
        });
        assert(pushed(base, name) == verbatim_pushed(base, name));
        assert(verbatim_pushed(base, name) == base.take(prefix_end(base)) + seq!['\\'] + joined(all));
        assert(pushed(base, name) =~= front(base) + name);
    } else {
        assert(pushed(base, name) =~= front(base) + name);
    }
}

} // verus!

//! Windows path rules: the prefix of a path (`C:`, `\\server\share`,
//! `\\.\device`, `\\?\...`), its components, joining a component to a folder
//! (`PathBuf::join`) and telling when two spellings name the same path
//! (`PathBuf`'s `==`, which compares components).

use vstd::prelude::*;
use crate::text::{
    ascii_lower_char, char_to_ascii_lowercase, chars_eq, chars_of, push_char, split_chars,
    split_on, string_from_chars, to_owned_string,
};

verus! {

broadcast use vstd::string::group_string_axioms;

/// `\` and `/` both separate the parts of a Windows path.
pub open spec fn is_separator(c: char) -> bool {
    c == '\\' || c == '/'
}

/// A separator as the prefix parser reads it: `/` counts as `\`.
pub open spec fn norm_char(c: char) -> char {
    if c == '/' {
        '\\'
    } else {
        c
    }
}

pub open spec fn is_ascii_letter(c: char) -> bool {
    ('a' <= c && c <= 'z') || ('A' <= c && c <= 'Z')
}

/// Whether a path starts with a drive prefix such as `C:`.
pub open spec fn has_drive_prefix(p: Seq<char>) -> bool {
    p.len() >= 2 && is_ascii_letter(p[0]) && p[1] == ':'
}

/// Whether the path starts with `lit`, `/` read as `\` (the prefix parser
/// looks at the first eight characters this way).
pub open spec fn starts_norm(p: Seq<char>, lit: Seq<char>) -> bool {
    &&& lit.len() <= p.len()
    &&& lit.len() <= 8
    &&& forall|j: int| 0 <= j < lit.len() ==> norm_char(#[trigger] p[j]) == lit[j]
}

/// A separator inside a path: only `\` in a verbatim path, else `\` or `/`.
pub open spec fn sep_at(c: char, verbatim: bool) -> bool {
    if verbatim {
        c == '\\'
    } else {
        is_separator(c)
    }
}

/// Position of the first separator of `s`, or its length.
pub open spec fn first_sep(s: Seq<char>, verbatim: bool) -> int
    decreases s.len(),
{
    if s.len() == 0 {
        0
    } else if sep_at(s[0], verbatim) {
        0
    } else {
        1 + first_sep(s.drop_first(), verbatim)
    }
}

/// The kinds of Windows path prefixes.
#[derive(Debug, Clone, Copy, PartialEq, Eq, Structural)]
pub enum PrefixKind {
    /// No prefix.
    Plain,
    /// `C:`.
    Disk,
    /// `\\?\C:`.
    VerbatimDisk,
    /// `\\?\name`.
    Verbatim,
    /// `\\?\UNC\server\share`.
    VerbatimUnc,
    /// `\\.\device`.
    DeviceNs,
    /// `\\server\share`.
    Unc,
}

/// Whether a prefix kind is a verbatim one (`\\?\`).
pub open spec fn is_verbatim(k: PrefixKind) -> bool {
    k == PrefixKind::VerbatimDisk || k == PrefixKind::Verbatim || k == PrefixKind::VerbatimUnc
}

pub open spec fn no_prefix() -> (PrefixKind, int, Seq<char>, Seq<char>) {
    (PrefixKind::Plain, 0, Seq::<char>::empty(), Seq::<char>::empty())
}

/// The prefix of a path as Windows' path parser reads it: its kind, its
/// length, and what it compares by (the drive letter in lower case, the
/// server and share, or the name).
pub open spec fn parse_prefix(p: Seq<char>) -> (PrefixKind, int, Seq<char>, Seq<char>) {
    if starts_norm(p, seq!['\\', '\\']) {
        if starts_norm(p, seq!['\\', '\\', '?', '\\']) && p[0] == '\\' && p[1] == '\\' && p[3] == '\\' {
            if starts_norm(p, seq!['\\', '\\', '?', '\\', 'U', 'N', 'C', '\\']) {
                let server_end = 8 + first_sep(p.skip(8), true);
                if server_end < p.len() {
                    let share_end = server_end + 1 + first_sep(p.skip(server_end + 1), true);
                    (
                        PrefixKind::VerbatimUnc,
                        if share_end > server_end + 1 { share_end } else { server_end },
                        p.subrange(8, server_end),
                        p.subrange(server_end + 1, share_end),
                    )
                } else {
                    (PrefixKind::VerbatimUnc, server_end, p.subrange(8, server_end), Seq::<char>::empty())
                }
            } else if p.len() >= 6 && is_ascii_letter(p[4]) && p[5] == ':' && (p.len() == 6 || p[6] == '\\') {
                (PrefixKind::VerbatimDisk, 6, seq![ascii_lower_char(p[4])], Seq::<char>::empty())
            } else {
                let e = 4 + first_sep(p.skip(4), true);
                (PrefixKind::Verbatim, e, p.subrange(4, e), Seq::<char>::empty())
            }
        } else if starts_norm(p, seq!['\\', '\\', '.', '\\']) {
            let e = 4 + first_sep(p.skip(4), false);
            (PrefixKind::DeviceNs, e, p.subrange(4, e), Seq::<char>::empty())
        } else {
            let server_end = 2 + first_sep(p.skip(2), false);
            if server_end < p.len() {
                let share_end = server_end + 1 + first_sep(p.skip(server_end + 1), false);
                if server_end > 2 && share_end > server_end + 1 {
                    (PrefixKind::Unc, share_end, p.subrange(2, server_end), p.subrange(server_end + 1, share_end))
                } else {
                    no_prefix()
                }
            } else {
                no_prefix()
            }
        }
    } else if has_drive_prefix(p) {
        (PrefixKind::Disk, 2, seq![ascii_lower_char(p[0])], Seq::<char>::empty())
    } else {
        no_prefix()
    }
}

/// Whether a separator follows the prefix.
pub open spec fn physical_root(p: Seq<char>) -> bool {
    let n = parse_prefix(p).1;
    n < p.len() && is_separator(p[n])
}

/// Whether the path has a root component: a separator after the prefix, or
/// the implied root of a `\\server\share` or `\\.\device` prefix.
pub open spec fn root_component(p: Seq<char>) -> bool {
    ||| physical_root(p)
    ||| parse_prefix(p).0 == PrefixKind::DeviceNs
    ||| parse_prefix(p).0 == PrefixKind::Unc
}

/// Whether a path without prefix and root starts with a `.` component, the
/// one `.` that counts as a component outside verbatim paths.
pub open spec fn cur_dir_first(p: Seq<char>) -> bool {
    &&& parse_prefix(p).0 == PrefixKind::Plain
    &&& !physical_root(p)
    &&& p.len() > 0
    &&& p[0] == '.'
    &&& (p.len() == 1 || is_separator(p[1]))
}

/// The part of a path after its prefix and root separator.
pub open spec fn path_body(p: Seq<char>) -> Seq<char> {
    p.skip(parse_prefix(p).1 + if physical_root(p) { 1int } else { 0int })
}

/// A path with every `/` written as `\`.
pub open spec fn unify_separators(s: Seq<char>) -> Seq<char> {
    s.map_values(|c: char| norm_char(c))
}

/// Whether a piece between separators is a component: empty pieces never
/// are, and `.` is one only in a verbatim path.
pub open spec fn keeps_piece(piece: Seq<char>, verbatim: bool) -> bool {
    piece.len() > 0 && (verbatim || piece != seq!['.'])
}

/// The pieces that are components.
pub open spec fn kept_components(pieces: Seq<Seq<char>>, verbatim: bool) -> Seq<Seq<char>>
    decreases pieces.len(),
{
    if pieces.len() == 0 {
        Seq::<Seq<char>>::empty()
    } else {
        let init = kept_components(pieces.drop_last(), verbatim);
        if keeps_piece(pieces.last(), verbatim) {
            init.push(pieces.last())
        } else {
            init
        }
    }
}

/// The components of a path after its prefix and root: names, `..`, and in
/// a verbatim path `.`.
pub open spec fn body_components(p: Seq<char>) -> Seq<Seq<char>> {
    let verbatim = is_verbatim(parse_prefix(p).0);
    let body = path_body(p);
    kept_components(split_on(if verbatim { body } else { unify_separators(body) }, '\\'), verbatim)
}

/// Whether two Windows paths are equal as `PathBuf`s: the same prefix (a
/// drive letter in any case), the same root, the same leading `.` and the
/// same components, whichever separators they are written with.
pub open spec fn same_windows_path(a: Seq<char>, b: Seq<char>) -> bool {
    &&& parse_prefix(a).0 == parse_prefix(b).0
    &&& parse_prefix(a).2 == parse_prefix(b).2
    &&& parse_prefix(a).3 == parse_prefix(b).3
    &&& root_component(a) == root_component(b)
    &&& cur_dir_first(a) == cur_dir_first(b)
    &&& body_components(a) == body_components(b)
}

/// Whether a separator goes between `base` and a relative component: not
/// after an empty path, a trailing separator or a bare drive such as `C:`.
pub open spec fn needs_separator(base: Seq<char>) -> bool {
    &&& base.len() > 0
    &&& !is_separator(base.last())
    &&& !(parse_prefix(base).0 == PrefixKind::Disk && base.len() == 2)
}

/// The root component, written as `\`.
pub open spec fn root_text() -> Seq<char> {
    seq!['\\']
}

/// Whether a component text is a name (not the root, `.` or `..`).
pub open spec fn is_name(c: Seq<char>) -> bool {
    c != root_text() && c != seq!['.'] && c != seq!['.', '.']
}

/// One component of the joined path applied to a verbatim path's
/// components: the root keeps only the prefix, `.` is dropped, `..` removes
/// a preceding name, anything else is appended.
pub open spec fn apply_component(buf: Seq<Seq<char>>, c: Seq<char>) -> Seq<Seq<char>> {
    if c == root_text() {
        buf.take(1).push(c)
    } else if c == seq!['.'] {
        buf
    } else if c == seq!['.', '.'] {
        if buf.len() > 1 && is_name(buf.last()) {
            buf.drop_last()
        } else {
            buf
        }
    } else {
        buf.push(c)
    }
}

pub open spec fn apply_components(buf: Seq<Seq<char>>, cs: Seq<Seq<char>>) -> Seq<Seq<char>>
    decreases cs.len(),
{
    if cs.len() == 0 {
        buf
    } else {
        apply_component(apply_components(buf, cs.drop_last()), cs.last())
    }
}

/// Components written out: a `\` between two of them, except next to the
/// root.
pub open spec fn render_components(cs: Seq<Seq<char>>) -> Seq<char>
    decreases cs.len(),
{
    if cs.len() == 0 {
        Seq::<char>::empty()
    } else {
        let sep = if cs.len() >= 2 && cs[cs.len() - 2] != root_text() && cs.last() != root_text() {
            root_text()
        } else {
            Seq::<char>::empty()
        };
        render_components(cs.drop_last()) + sep + cs.last()
    }
}

/// The components of a verbatim path: its prefix, its root, its body.
pub open spec fn verbatim_components(p: Seq<char>) -> Seq<Seq<char>> {
    seq![p.take(parse_prefix(p).1)] + (if root_component(p) {
        seq![root_text()]
    } else {
        Seq::<Seq<char>>::empty()
    }) + body_components(p)
}

/// The components of a path without a prefix that matter when it is joined
/// to a verbatim path: its root and its body (a leading `.` is dropped there
/// anyway).
pub open spec fn relative_components(p: Seq<char>) -> Seq<Seq<char>> {
    (if physical_root(p) {
        seq![root_text()]
    } else {
        Seq::<Seq<char>>::empty()
    }) + body_components(p)
}

/// `base.join(component)` on Windows: a component with a prefix replaces the
/// base; joined to a verbatim base, the components are combined with `.`
/// and `..` resolved; a component that starts with a separator keeps only
/// the base's prefix; any other is appended, with a `\` between where one is
/// needed.
pub open spec fn join_path(base: Seq<char>, component: Seq<char>) -> Seq<char> {
    if parse_prefix(component).0 != PrefixKind::Plain {
        component
    } else if is_verbatim(parse_prefix(base).0) && component.len() > 0 {
        render_components(apply_components(verbatim_components(base), relative_components(component)))
    } else if component.len() > 0 && is_separator(component[0]) {
        base.take(parse_prefix(base).1) + component
    } else if needs_separator(base) {
        base + seq!['\\'] + component
    } else {
        base + component
    }
}

/// The texts of a vector of character vectors.
pub open spec fn texts(v: Seq<Vec<char>>) -> Seq<Seq<char>> {
    v.map_values(|x: Vec<char>| x@)
}

fn char_is_ascii_letter(c: char) -> (b: bool)
    ensures
        b == is_ascii_letter(c),
{
    ('a' <= c && c <= 'z') || ('A' <= c && c <= 'Z')
}

fn norm(c: char) -> (r: char)
    ensures
        r == norm_char(c),
{
    if c == '/' {
        '\\'
    } else {
        c
    }
}

fn starts_norm_exec(v: &Vec<char>, lit: &Vec<char>) -> (b: bool)
    ensures
        b == starts_norm(v@, lit@),
{
    if lit.len() > v.len() || lit.len() > 8 {
        return false;
    }
    let mut j: usize = 0;
    while j < lit.len()
        invariant
            lit@.len() <= v@.len(),
            j <= lit@.len(),
            forall|k: int| 0 <= k < j ==> norm_char(#[trigger] v@[k]) == lit@[k],
        decreases lit.len() - j,
    {
        if norm(v[j]) != lit[j] {
            return false;
        }
        j = j + 1;
    }
    true
}

fn is_sep_exec(c: char, verbatim: bool) -> (b: bool)
    ensures
        b == sep_at(c, verbatim),
{
    if verbatim {
        c == '\\'
    } else {
        c == '\\' || c == '/'
    }
}

fn find_sep(v: &Vec<char>, start: usize, verbatim: bool) -> (i: usize)
    requires
        start <= v@.len(),
    ensures
        i == start + first_sep(v@.skip(start as int), verbatim),
        start <= i <= v@.len(),
{
    let mut j: usize = start;
    while j < v.len() && !is_sep_exec(v[j], verbatim)
        invariant
            start <= j <= v@.len(),
            first_sep(v@.skip(start as int), verbatim) == (j - start) + first_sep(v@.skip(j as int), verbatim),
        decreases v.len() - j,
    {
        assert(v@.skip(j as int)[0] == v@[j as int]);
        assert(v@.skip(j as int).drop_first() =~= v@.skip(j + 1));
        j = j + 1;
    }
    if j < v.len() {
        assert(v@.skip(j as int)[0] == v@[j as int]);
    } else {
        assert(v@.skip(j as int).len() == 0);
    }
    j
}

fn copy_range(v: &Vec<char>, a: usize, b: usize) -> (r: Vec<char>)
    requires
        a <= b <= v@.len(),
    ensures
        r@ == v@.subrange(a as int, b as int),
{
    let mut r: Vec<char> = Vec::new();
    let mut i: usize = a;
    while i < b
        invariant
            a <= i <= b <= v@.len(),
            r@ == v@.subrange(a as int, i as int),
        decreases b - i,
    {
        r.push(v[i]);
        i = i + 1;
        assert(v@.subrange(a as int, i as int) =~= v@.subrange(a as int, i - 1).push(v@[i - 1]));
    }
    r
}

/// A parsed prefix: kind, length and what it compares by.
struct PrefixParse {
    kind: PrefixKind,
    len: usize,
    first: Vec<char>,
    second: Vec<char>,
}

fn parse_prefix_exec(v: &Vec<char>) -> (r: PrefixParse)
    ensures
        r.kind == parse_prefix(v@).0,
        r.len == parse_prefix(v@).1,
        r.first@ == parse_prefix(v@).2,
        r.second@ == parse_prefix(v@).3,
        0 <= parse_prefix(v@).1 <= v@.len(),
{
    let ghost p = v@;
    let none = PrefixParse { kind: PrefixKind::Plain, len: 0, first: Vec::new(), second: Vec::new() };
    if starts_norm_exec(v, &vec!['\\', '\\']) {
        if starts_norm_exec(v, &vec!['\\', '\\', '?', '\\']) && v[0] == '\\' && v[1] == '\\' && v[3] == '\\' {
            if starts_norm_exec(v, &vec!['\\', '\\', '?', '\\', 'U', 'N', 'C', '\\']) {
                let server_end = find_sep(v, 8, true);
                let server = copy_range(v, 8, server_end);
                if server_end < v.len() {
                    let share_end = find_sep(v, server_end + 1, true);
                    let share = copy_range(v, server_end + 1, share_end);
                    let len = if share_end > server_end + 1 { share_end } else { server_end };
                    PrefixParse { kind: PrefixKind::VerbatimUnc, len, first: server, second: share }
                } else {
                    PrefixParse { kind: PrefixKind::VerbatimUnc, len: server_end, first: server, second: Vec::new() }
                }
            } else if v.len() >= 6 && char_is_ascii_letter(v[4]) && v[5] == ':' && (v.len() == 6 || v[6] == '\\') {
                let letter = char_to_ascii_lowercase(v[4]);
                let mut first: Vec<char> = Vec::new();
                first.push(letter);
                assert(first@ =~= seq![ascii_lower_char(p[4])]);
                PrefixParse { kind: PrefixKind::VerbatimDisk, len: 6, first, second: Vec::new() }
            } else {
                let e = find_sep(v, 4, true);
                PrefixParse { kind: PrefixKind::Verbatim, len: e, first: copy_range(v, 4, e), second: Vec::new() }
            }
        } else if starts_norm_exec(v, &vec!['\\', '\\', '.', '\\']) {
            let e = find_sep(v, 4, false);
            PrefixParse { kind: PrefixKind::DeviceNs, len: e, first: copy_range(v, 4, e), second: Vec::new() }
        } else {
            let server_end = find_sep(v, 2, false);
            if server_end < v.len() {
                let share_end = find_sep(v, server_end + 1, false);
                if server_end > 2 && share_end > server_end + 1 {
                    PrefixParse {
                        kind: PrefixKind::Unc,
                        len: share_end,
                        first: copy_range(v, 2, server_end),
                        second: copy_range(v, server_end + 1, share_end),
                    }
                } else {
                    none
                }
            } else {
                none
            }
        }
    } else if v.len() >= 2 && char_is_ascii_letter(v[0]) && v[1] == ':' {
        let letter = char_to_ascii_lowercase(v[0]);
        let mut first: Vec<char> = Vec::new();
        first.push(letter);
        assert(first@ =~= seq![ascii_lower_char(p[0])]);
        PrefixParse { kind: PrefixKind::Disk, len: 2, first, second: Vec::new() }
    } else {
        none
    }
}

/// Everything `same_windows_path` and `join_path` read of a path.
struct PathInfo {
    prefix: PrefixParse,
    physical_root: bool,
    root_component: bool,
    cur_dir: bool,
    body: Vec<Vec<char>>,
}

fn path_info(v: &Vec<char>) -> (r: PathInfo)
    ensures
        r.prefix.kind == parse_prefix(v@).0,
        r.prefix.len == parse_prefix(v@).1,
        r.prefix.first@ == parse_prefix(v@).2,
        r.prefix.second@ == parse_prefix(v@).3,
        0 <= parse_prefix(v@).1 <= v@.len(),
        r.physical_root == physical_root(v@),
        r.root_component == root_component(v@),
        r.cur_dir == cur_dir_first(v@),
        texts(r.body@) == body_components(v@),
{
    let prefix = parse_prefix_exec(v);
    let n = prefix.len;
    let physical = n < v.len() && (v[n] == '\\' || v[n] == '/');
    let root = physical || prefix.kind == PrefixKind::DeviceNs || prefix.kind == PrefixKind::Unc;
    let cur_dir = prefix.kind == PrefixKind::Plain && !physical && v.len() > 0 && v[0] == '.' && (v.len()
        == 1 || v[1] == '\\' || v[1] == '/');
    let verbatim = prefix.kind == PrefixKind::VerbatimDisk || prefix.kind == PrefixKind::Verbatim
        || prefix.kind == PrefixKind::VerbatimUnc;
    let start: usize = if physical { n + 1 } else { n };
    let ghost body = path_body(v@);
    assert(body =~= v@.subrange(start as int, v@.len() as int));
    let mut rest: Vec<char> = Vec::new();
    let mut i: usize = start;
    while i < v.len()
        invariant
            start <= i <= v@.len(),
            rest@ == (if verbatim { v@.subrange(start as int, i as int) } else { unify_separators(v@.subrange(start as int, i as int)) }),
        decreases v.len() - i,
    {
        let c = v[i];
        if verbatim {
            rest.push(c);
        } else {
            rest.push(norm(c));
        }
        i = i + 1;
        assert(v@.subrange(start as int, i as int) =~= v@.subrange(start as int, i - 1).push(v@[i - 1]));
        assert(unify_separators(v@.subrange(start as int, i as int)) =~= unify_separators(
            v@.subrange(start as int, i - 1),
        ).push(norm_char(v@[i - 1])));
    }
    let pieces = split_chars(&rest, '\\');
    let ghost split = split_on(rest@, '\\');
    let mut out: Vec<Vec<char>> = Vec::new();
    let mut k: usize = 0;
    assert(split.take(0) =~= Seq::<Seq<char>>::empty());
    assert(texts(out@) =~= Seq::<Seq<char>>::empty());
    while k < pieces.len()
        invariant
            k <= pieces@.len(),
            pieces@.len() == split.len(),
            forall|j: int| 0 <= j < pieces@.len() ==> #[trigger] pieces@[j]@ == split[j],
            texts(out@) == kept_components(split.take(k as int), verbatim),
        decreases pieces.len() - k,
    {
        let piece = &pieces[k];
        assert(piece@ == split[k as int]);
        let is_dot = piece.len() == 1 && piece[0] == '.';
        assert(is_dot == (piece@ == seq!['.'])) by {
            if piece@.len() == 1 && piece@[0] == '.' {
                assert(piece@ =~= seq!['.']);
            }
        }
        assert(split.take(k + 1).drop_last() =~= split.take(k as int));
        assert(split.take(k + 1).last() == split[k as int]);
        if piece.len() != 0 && (verbatim || !is_dot) {
            let copy = piece.clone();
            assert(copy@ =~= piece@);
            out.push(copy);
            assert(texts(out@) =~= texts(out@.drop_last()).push(copy@));
        }
        k = k + 1;
    }
    assert(split.take(split.len() as int) =~= split);
    PathInfo { prefix, physical_root: physical, root_component: root, cur_dir, body: out }
}

fn same_texts(a: &Vec<Vec<char>>, b: &Vec<Vec<char>>) -> (r: bool)
    ensures
        r == (texts(a@) == texts(b@)),
{
    if a.len() != b.len() {
        assert(texts(a@).len() != texts(b@).len());
        return false;
    }
    let mut i: usize = 0;
    while i < a.len()
        invariant
            i <= a@.len(),
            a@.len() == b@.len(),
            forall|k: int| 0 <= k < i ==> a@[k]@ == b@[k]@,
        decreases a.len() - i,
    {
        if !chars_eq(&a[i], &b[i]) {
            assert(texts(a@)[i as int] != texts(b@)[i as int]);
            return false;
        }
        i = i + 1;
    }
    assert(texts(a@) =~= texts(b@));
    true
}

/// Whether two paths are equal as Windows `PathBuf`s.
pub fn same_windows_path_exec(a: &str, b: &str) -> (r: bool)
    ensures
        r == same_windows_path(a@, b@),
{
    let va = chars_of(a);
    let vb = chars_of(b);
    let pa = path_info(&va);
    let pb = path_info(&vb);
    pa.prefix.kind == pb.prefix.kind && chars_eq(&pa.prefix.first, &pb.prefix.first) && chars_eq(
        &pa.prefix.second,
        &pb.prefix.second,
    ) && pa.root_component == pb.root_component && pa.cur_dir == pb.cur_dir && same_texts(
        &pa.body,
        &pb.body,
    )
}

fn root_vec() -> (r: Vec<char>)
    ensures
        r@ == root_text(),
{
    let mut r: Vec<char> = Vec::new();
    r.push('\\');
    assert(r@ =~= root_text());
    r
}

fn is_name_exec(c: &Vec<char>) -> (b: bool)
    ensures
        b == is_name(c@),
{
    let root = c.len() == 1 && c[0] == '\\';
    let dot = c.len() == 1 && c[0] == '.';
    let dots = c.len() == 2 && c[0] == '.' && c[1] == '.';
    proof {
        if c@.len() == 1 {
            assert(root == (c@ =~= root_text()));
            assert(dot == (c@ =~= seq!['.']));
        }
        if c@.len() == 2 {
            assert(dots == (c@ =~= seq!['.', '.']));
        }
    }
    !root && !dot && !dots
}

/// Joins a path to a verbatim base as `PathBuf::push` does: the components
/// combined, then written out.
fn join_verbatim(b: &Vec<char>, info_b: &PathInfo, c: &Vec<char>) -> (r: Vec<char>)
    requires
        info_b.prefix.len == parse_prefix(b@).1,
        0 <= parse_prefix(b@).1 <= b@.len(),
        info_b.root_component == root_component(b@),
        texts(info_b.body@) == body_components(b@),
    ensures
        r@ == render_components(apply_components(verbatim_components(b@), relative_components(c@))),
{
    let ghost start = verbatim_components(b@);
    let mut buf: Vec<Vec<char>> = Vec::new();
    buf.push(copy_range(b, 0, info_b.prefix.len));
    if info_b.root_component {
        buf.push(root_vec());
    }
    let mut i: usize = 0;
    while i < info_b.body.len()
        invariant
            i <= info_b.body@.len(),
            texts(buf@) == seq![b@.take(parse_prefix(b@).1)] + (if root_component(b@) {
                seq![root_text()]
            } else {
                Seq::<Seq<char>>::empty()
            }) + texts(info_b.body@).take(i as int),
        decreases info_b.body.len() - i,
    {
        let item = info_b.body[i].clone();
        assert(item@ =~= info_b.body@[i as int]@);
        let ghost before = texts(buf@);
        buf.push(item);
        assert(texts(buf@) =~= before.push(info_b.body@[i as int]@));
        i = i + 1;
        assert(texts(info_b.body@).take(i as int) =~= texts(info_b.body@).take(i - 1).push(
            info_b.body@[i - 1]@,
        ));
        assert(texts(buf@) =~= seq![b@.take(parse_prefix(b@).1)] + (if root_component(b@) {
            seq![root_text()]
        } else {
            Seq::<Seq<char>>::empty()
        }) + texts(info_b.body@).take(i as int));
    }
    assert(texts(info_b.body@).take(info_b.body@.len() as int) =~= texts(info_b.body@));
    assert(texts(buf@) =~= start);
    let info_c = path_info(c);
    let mut comps: Vec<Vec<char>> = Vec::new();
    if info_c.physical_root {
        comps.push(root_vec());
    }
    let mut j: usize = 0;
    while j < info_c.body.len()
        invariant
            j <= info_c.body@.len(),
            texts(comps@) == (if physical_root(c@) {
                seq![root_text()]
            } else {
                Seq::<Seq<char>>::empty()
            }) + texts(info_c.body@).take(j as int),
        decreases info_c.body.len() - j,
    {
        let item = info_c.body[j].clone();
        assert(item@ =~= info_c.body@[j as int]@);
        let ghost before = texts(comps@);
        comps.push(item);
        assert(texts(comps@) =~= before.push(info_c.body@[j as int]@));
        j = j + 1;
        assert(texts(info_c.body@).take(j as int) =~= texts(info_c.body@).take(j - 1).push(
            info_c.body@[j - 1]@,
        ));
        assert(texts(comps@) =~= (if physical_root(c@) {
            seq![root_text()]
        } else {
            Seq::<Seq<char>>::empty()
        }) + texts(info_c.body@).take(j as int));
    }
    assert(texts(info_c.body@).take(info_c.body@.len() as int) =~= texts(info_c.body@));
    let ghost rel = relative_components(c@);
    assert(texts(comps@) =~= rel);
    let mut k: usize = 0;
    assert(rel.take(0) =~= Seq::<Seq<char>>::empty());
    while k < comps.len()
        invariant
            k <= comps@.len(),
            texts(comps@) == rel,
            buf@.len() >= 1,
            texts(buf@) == apply_components(start, rel.take(k as int)),
        decreases comps.len() - k,
    {
        let item = &comps[k];
        assert(item@ == rel[k as int]);
        assert(rel.take(k + 1).drop_last() =~= rel.take(k as int));
        assert(rel.take(k + 1).last() == rel[k as int]);
        let ghost before = texts(buf@);
        let root = item.len() == 1 && item[0] == '\\';
        let dot = item.len() == 1 && item[0] == '.';
        let dots = item.len() == 2 && item[0] == '.' && item[1] == '.';
        proof {
            if item@.len() == 1 {
                assert(root == (item@ =~= root_text()));
                assert(dot == (item@ =~= seq!['.']));
            }
            if item@.len() == 2 {
                assert(dots == (item@ =~= seq!['.', '.']));
            }
        }
        if root {
            buf.truncate(1);
            buf.push(root_vec());
            assert(texts(buf@) =~= before.take(1).push(root_text()));
        } else if dot {
        } else if dots {
            if buf.len() > 1 && is_name_exec(&buf[buf.len() - 1]) {
                buf.pop();
                assert(texts(buf@) =~= before.drop_last());
            }
        } else {
            let copy = item.clone();
            assert(copy@ =~= item@);
            buf.push(copy);
            assert(texts(buf@) =~= before.push(item@));
        }
        k = k + 1;
    }
    assert(rel.take(rel.len() as int) =~= rel);
    let ghost done = texts(buf@);
    let mut out: Vec<char> = Vec::new();
    let mut m: usize = 0;
    assert(done.take(0) =~= Seq::<Seq<char>>::empty());
    while m < buf.len()
        invariant
            m <= buf@.len(),
            texts(buf@) == done,
            out@ == render_components(done.take(m as int)),
        decreases buf.len() - m,
    {
        let ghost prev = done.take(m as int);
        assert(done.take(m + 1).drop_last() =~= prev);
        assert(done.take(m + 1).last() == buf@[m as int]@);
        let cur_root = buf[m].len() == 1 && buf[m][0] == '\\';
        proof {
            if buf@[m as int]@.len() == 1 {
                assert(cur_root == (buf@[m as int]@ =~= root_text()));
            }
        }
        if m >= 1 {
            let prev_root = buf[m - 1].len() == 1 && buf[m - 1][0] == '\\';
            proof {
                if buf@[m - 1]@.len() == 1 {
                    assert(prev_root == (buf@[m - 1]@ =~= root_text()));
                }
                assert(done.take(m + 1)[m - 1] == buf@[m - 1]@);
            }
            if !prev_root && !cur_root {
                out.push('\\');
            }
        }
        let ghost mid = out@;
        let mut q: usize = 0;
        while q < buf[m].len()
            invariant
                m < buf@.len(),
                q <= buf@[m as int]@.len(),
                out@ == mid + buf@[m as int]@.take(q as int),
            decreases buf@[m as int]@.len() - q,
        {
            out.push(buf[m][q]);
            q = q + 1;
            assert(buf@[m as int]@.take(q as int) =~= buf@[m as int]@.take(q - 1).push(buf@[m as int]@[q - 1]));
        }
        assert(buf@[m as int]@.take(buf@[m as int]@.len() as int) =~= buf@[m as int]@);
        m = m + 1;
        assert(out@ =~= render_components(done.take(m as int)));
    }
    assert(done.take(done.len() as int) =~= done);
    out
}

/// Joins a component to a folder as `PathBuf::join` does on Windows.
pub fn join_path_exec(base: &str, component: &str) -> (r: String)
    ensures
        r@ == join_path(base@, component@),
{
    let b = chars_of(base);
    let c = chars_of(component);
    let pc = parse_prefix_exec(&c);
    if pc.kind != PrefixKind::Plain {
        return to_owned_string(component);
    }
    let info_b = path_info(&b);
    let verbatim = info_b.prefix.kind == PrefixKind::VerbatimDisk || info_b.prefix.kind == PrefixKind::Verbatim
        || info_b.prefix.kind == PrefixKind::VerbatimUnc;
    if verbatim && c.len() > 0 {
        let joined = join_verbatim(&b, &info_b, &c);
        return string_from_chars(&joined);
    }
    if c.len() > 0 && (c[0] == '\\' || c[0] == '/') {
        let head = copy_range(&b, 0, info_b.prefix.len);
        assert(head@ =~= base@.take(parse_prefix(base@).1));
        let mut r = string_from_chars(&head);
        r.append(component);
        return r;
    }
    let bare_drive = info_b.prefix.kind == PrefixKind::Disk && b.len() == 2;
    let need = b.len() > 0 && !(b[b.len() - 1] == '\\' || b[b.len() - 1] == '/') && !bare_drive;
    let mut r = to_owned_string(base);
    if need {
        push_char(&mut r, '\\');
    }
    r.append(component);
    r
}

} // verus!

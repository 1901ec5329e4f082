use vstd::prelude::*;
use crate::manifest::{names_unique, DepView, Dependency, Manifest, ManifestView, PackageType, PkgView};

verus! {

// ---------------------------------------------------------------------
// The line layer: manifest text is a sequence of newline-terminated
// lines. `lines_of` splits text, `unlines` joins lines; for lines free
// of newlines the two invert each other.
// ---------------------------------------------------------------------

/// Index of the first occurrence of `c` in `s`, or `s.len()` when absent.
pub open spec fn find_char(s: Seq<char>, c: char) -> int
    decreases s.len(),
{
    if s.len() == 0 {
        0
    } else if s[0] == c {
        0
    } else {
        1 + find_char(s.subrange(1, s.len() as int), c)
    }
}

/// `find_char` is the first index bearing `c`, or the length.
pub proof fn lemma_find_char(s: Seq<char>, c: char)
    ensures
        0 <= find_char(s, c) <= s.len(),
        find_char(s, c) < s.len() ==> s[find_char(s, c)] == c,
        forall|j: int| 0 <= j < find_char(s, c) ==> s[j] != c,
    decreases s.len(),
{
    if s.len() == 0 {
    } else if s[0] == c {
    } else {
        let t = s.subrange(1, s.len() as int);
        lemma_find_char(t, c);
        assert forall|j: int| 0 <= j < find_char(s, c) implies s[j] != c by {
            if j > 0 {
                assert(s[j] == t[j - 1]);
            }
        }
    }
}

/// In a sequence that opens with a `c`-free prefix `a` followed by `c`,
/// the first `c` sits right after `a`.
pub proof fn lemma_find_char_past_prefix(a: Seq<char>, rest: Seq<char>, c: char)
    requires
        forall|j: int| 0 <= j < a.len() ==> a[j] != c,
        rest.len() > 0,
        rest[0] == c,
    ensures
        find_char(a + rest, c) == a.len(),
    decreases a.len(),
{
    let s = a + rest;
    if a.len() == 0 {
        assert(s =~= rest);
    } else {
        assert(s[0] == a[0]);
        let t = s.subrange(1, s.len() as int);
        let a2 = a.subrange(1, a.len() as int);
        assert(t =~= a2 + rest);
        lemma_find_char_past_prefix(a2, rest, c);
    }
}

/// Whether `s` holds no newline.
pub open spec fn no_nl(s: Seq<char>) -> bool {
    forall|j: int| 0 <= j < s.len() ==> s[j] != '\n'
}

/// The lines of `s`: maximal runs between newlines. Text whose last line
/// lacks a terminating newline still yields that line.
pub open spec fn lines_of(s: Seq<char>) -> Seq<Seq<char>>
    decreases s.len(),
{
    if s.len() == 0 {
        Seq::empty()
    } else {
        let i = find_char(s, '\n');
        if 0 <= i < s.len() {
            seq![s.subrange(0, i)] + lines_of(s.subrange(i + 1, s.len() as int))
        } else {
            seq![s]
        }
    }
}

/// The text of the given lines, each terminated by a newline.
pub open spec fn unlines(ls: Seq<Seq<char>>) -> Seq<char>
    decreases ls.len(),
{
    if ls.len() == 0 {
        Seq::empty()
    } else {
        ls[0] + seq!['\n'] + unlines(ls.subrange(1, ls.len() as int))
    }
}

/// Joining text distributes over concatenation of line lists.
pub proof fn lemma_unlines_append(a: Seq<Seq<char>>, b: Seq<Seq<char>>)
    ensures
        unlines(a + b) == unlines(a) + unlines(b),
    decreases a.len(),
{
    if a.len() == 0 {
        assert(a + b =~= b);
        assert(unlines(a) + unlines(b) =~= unlines(b));
    } else {
        let a2 = a.subrange(1, a.len() as int);
        assert((a + b).subrange(1, (a + b).len() as int) =~= a2 + b);
        assert((a + b)[0] == a[0]);
        lemma_unlines_append(a2, b);
        assert(unlines(a + b) =~= unlines(a) + unlines(b));
    }
}

/// Splitting inverts joining, for lines free of newlines.
pub proof fn lemma_lines_of_unlines(ls: Seq<Seq<char>>)
    requires
        forall|i: int| 0 <= i < ls.len() ==> no_nl(#[trigger] ls[i]),
    ensures
        lines_of(unlines(ls)) == ls,
    decreases ls.len(),
{
    if ls.len() == 0 {
    } else {
        let s = unlines(ls);
        let rest = ls.subrange(1, ls.len() as int);
        let tail = seq!['\n'] + unlines(rest);
        assert(s =~= ls[0] + tail);
        lemma_find_char_past_prefix(ls[0], tail, '\n');
        assert(find_char(s, '\n') == ls[0].len());
        assert(s.len() == ls[0].len() + tail.len());
        assert(tail.len() > 0);
        assert(find_char(s, '\n') < s.len());
        assert(s.subrange(0, ls[0].len() as int) =~= ls[0]);
        assert(s.subrange(ls[0].len() as int + 1, s.len() as int) =~= unlines(rest));
        assert forall|i: int| 0 <= i < rest.len() implies no_nl(#[trigger] rest[i]) by {
            assert(rest[i] == ls[i + 1]);
        }
        lemma_lines_of_unlines(rest);
        assert(lines_of(s) =~= ls);
    }
}

// ---------------------------------------------------------------------
// The single-line layer: a line is a section header or a `key = value`
// binding whose value is a quoted string, a boolean, or a list of quoted
// strings.
// ---------------------------------------------------------------------

/// Shape of one parsed line.
#[verifier::ext_equal]
pub enum LineView {
    /// A blank line.
    Empty,
    /// `[package]`
    HeadPackage,
    /// `[dependencies.<name>]`
    HeadDep(Seq<char>),
    /// `[dev_dependencies.<name>]`
    HeadDev(Seq<char>),
    /// `<key> = "<text>"`
    ValStr(Seq<char>, Seq<char>),
    /// `<key> = true` or `<key> = false`
    ValBool(Seq<char>, bool),
    /// `<key> = ["<text>", ...]`
    ValList(Seq<char>, Seq<Seq<char>>),
    /// Anything else.
    Bad,
}

/// The ` = ` between a key and its value.
pub open spec fn kv_sep() -> Seq<char> {
    seq![' ', '=', ' ']
}

/// `"<v>"`
pub open spec fn quoted(v: Seq<char>) -> Seq<char> {
    seq!['"'] + v + seq!['"']
}

/// `<k> = "<v>"`
pub open spec fn qkv(k: Seq<char>, v: Seq<char>) -> Seq<char> {
    k + kv_sep() + quoted(v)
}

/// `<k> = true` / `<k> = false`
pub open spec fn bkv(k: Seq<char>, b: bool) -> Seq<char> {
    k + kv_sep() + (if b {
        "true"@
    } else {
        "false"@
    })
}

/// `"<a>", "<b>", ...`
pub open spec fn items_text(vs: Seq<Seq<char>>) -> Seq<char>
    decreases vs.len(),
{
    if vs.len() == 0 {
        Seq::empty()
    } else if vs.len() == 1 {
        quoted(vs[0])
    } else {
        quoted(vs[0]) + seq![',', ' '] + items_text(vs.subrange(1, vs.len() as int))
    }
}

/// `<k> = ["<a>", ...]`
pub open spec fn lkv(k: Seq<char>, vs: Seq<Seq<char>>) -> Seq<char> {
    k + kv_sep() + seq!['['] + items_text(vs) + seq![']']
}

/// `[package]`
pub open spec fn package_header() -> Seq<char> {
    seq!['['] + "package"@ + seq![']']
}

/// `[dependencies.<name>]` or `[dev_dependencies.<name>]`
pub open spec fn dep_header(name: Seq<char>, dev: bool) -> Seq<char> {
    seq!['['] + (if dev {
        "dev_dependencies."@
    } else {
        "dependencies."@
    }) + name + seq![']']
}

/// Whether `p` opens `s`.
pub open spec fn prefix_of(s: Seq<char>, p: Seq<char>) -> bool {
    p.len() <= s.len() && s.subrange(0, p.len() as int) == p
}

/// The list of a bracketed value's items: quote-delimited texts joined by
/// `, `. `None` for anything malformed.
pub open spec fn parse_items(s: Seq<char>) -> Option<Seq<Seq<char>>>
    decreases s.len(),
{
    if s.len() == 0 {
        Some(Seq::empty())
    } else if s[0] != '"' {
        None
    } else {
        let j = 1 + find_char(s.subrange(1, s.len() as int), '"');
        if 1 <= j < s.len() {
            let item = s.subrange(1, j);
            if j == s.len() - 1 {
                Some(seq![item])
            } else if j + 3 <= s.len() && s[j + 1] == ',' && s[j + 2] == ' ' {
                match parse_items(s.subrange(j + 3, s.len() as int)) {
                    Some(rest) => Some(seq![item] + rest),
                    None => None,
                }
            } else {
                None
            }
        } else {
            None
        }
    }
}

/// A key as the renderer writes one: non-empty, no spaces, not opening
/// like a header.
pub open spec fn good_key(k: Seq<char>) -> bool {
    &&& k.len() > 0
    &&& k[0] != '['
    &&& forall|j: int| 0 <= j < k.len() ==> k[j] != ' '
}

/// The value part of a binding line, by its first character.
pub open spec fn parse_value(key: Seq<char>, vt: Seq<char>) -> LineView {
    if vt == "true"@ {
        LineView::ValBool(key, true)
    } else if vt == "false"@ {
        LineView::ValBool(key, false)
    } else if vt.len() >= 2 && vt[0] == '"' && vt.last() == '"' {
        LineView::ValStr(key, vt.subrange(1, vt.len() - 1))
    } else if vt.len() >= 2 && vt[0] == '[' && vt.last() == ']' {
        match parse_items(vt.subrange(1, vt.len() - 1)) {
            Some(vs) => LineView::ValList(key, vs),
            None => LineView::Bad,
        }
    } else {
        LineView::Bad
    }
}

/// What one line means.
pub open spec fn parse_line(l: Seq<char>) -> LineView {
    if l.len() == 0 {
        LineView::Empty
    } else if l[0] == '[' {
        if l.len() >= 2 && l.last() == ']' {
            let mid = l.subrange(1, l.len() - 1);
            if mid == "package"@ {
                LineView::HeadPackage
            } else if prefix_of(mid, "dependencies."@) {
                LineView::HeadDep(mid.subrange("dependencies."@.len() as int, mid.len() as int))
            } else if prefix_of(mid, "dev_dependencies."@) {
                LineView::HeadDev(
                    mid.subrange("dev_dependencies."@.len() as int, mid.len() as int),
                )
            } else {
                LineView::Bad
            }
        } else {
            LineView::Bad
        }
    } else {
        let k = find_char(l, ' ');
        if 0 <= k && k + 3 <= l.len() && l.subrange(k, k + 3) == kv_sep() {
            parse_value(l.subrange(0, k), l.subrange(k + 3, l.len() as int))
        } else {
            LineView::Bad
        }
    }
}

/// Parsing inverts rendering for a quoted-string binding line.
pub proof fn lemma_parse_qkv(k: Seq<char>, v: Seq<char>)
    requires
        good_key(k),
    ensures
        parse_line(qkv(k, v)) == LineView::ValStr(k, v),
{
    let l = qkv(k, v);
    let tail = kv_sep() + quoted(v);
    assert(l =~= k + tail);
    assert(l[0] == k[0]);
    lemma_find_char_past_prefix(k, tail, ' ');
    assert(find_char(l, ' ') == k.len());
    let kl = k.len() as int;
    assert(l.subrange(kl, kl + 3) =~= kv_sep());
    assert(l.subrange(0, kl) =~= k);
    let vt = l.subrange(kl + 3, l.len() as int);
    assert(vt =~= quoted(v));
    reveal_strlit("true");
    reveal_strlit("false");
    assert(vt[0] == '"');
    assert(vt != "true"@) by {
        if vt == "true"@ {
            assert(vt[0] == 't');
        }
    }
    assert(vt != "false"@) by {
        if vt == "false"@ {
            assert(vt[0] == 'f');
        }
    }
    assert(vt.len() >= 2 && vt.last() == '"');
    assert(vt.subrange(1, vt.len() - 1) =~= v);
}

/// Parsing inverts rendering for a boolean binding line.
pub proof fn lemma_parse_bkv(k: Seq<char>, b: bool)
    requires
        good_key(k),
    ensures
        parse_line(bkv(k, b)) == LineView::ValBool(k, b),
{
    let l = bkv(k, b);
    let bt: Seq<char> = if b {
        "true"@
    } else {
        "false"@
    };
    let tail = kv_sep() + bt;
    assert(l =~= k + tail);
    assert(l[0] == k[0]);
    lemma_find_char_past_prefix(k, tail, ' ');
    assert(find_char(l, ' ') == k.len());
    let kl = k.len() as int;
    assert(l.subrange(kl, kl + 3) =~= kv_sep());
    assert(l.subrange(0, kl) =~= k);
    let vt = l.subrange(kl + 3, l.len() as int);
    assert(vt =~= bt);
    reveal_strlit("true");
    reveal_strlit("false");
    if b {
    } else {
        assert(vt != "true"@) by {
            if vt == "true"@ {
                assert(vt.len() == 4);
            }
        }
    }
}

/// Parsing inverts rendering for an item list.
pub proof fn lemma_parse_items(vs: Seq<Seq<char>>)
    requires
        forall|i: int| 0 <= i < vs.len() ==> no_quote(#[trigger] vs[i]),
    ensures
        parse_items(items_text(vs)) == Some(vs),
    decreases vs.len(),
{
    if vs.len() == 0 {
    } else {
        let s = items_text(vs);
        let v0 = vs[0];
        let after: Seq<char> = if vs.len() == 1 {
            Seq::empty()
        } else {
            seq![',', ' '] + items_text(vs.subrange(1, vs.len() as int))
        };
        assert(s =~= seq!['"'] + v0 + seq!['"'] + after);
        assert(s[0] == '"');
        let t = s.subrange(1, s.len() as int);
        assert(t =~= v0 + (seq!['"'] + after));
        lemma_find_char_past_prefix(v0, seq!['"'] + after, '"');
        assert(find_char(t, '"') == v0.len());
        let j = 1 + v0.len() as int;
        assert(s.subrange(1, j) =~= v0);
        if vs.len() == 1 {
            assert(j == s.len() - 1);
            assert(parse_items(s) == Some(seq![v0]));
            assert(seq![v0] =~= vs);
        } else {
            let rest = vs.subrange(1, vs.len() as int);
            assert(items_text(rest).len() >= 2) by {
                if rest.len() == 1 {
                    assert(items_text(rest) == quoted(rest[0]));
                } else {
                    assert(items_text(rest) == quoted(rest[0]) + seq![',', ' '] + items_text(
                        rest.subrange(1, rest.len() as int),
                    ));
                }
            }
            assert(j != s.len() - 1);
            assert(s[j + 1] == ',');
            assert(s[j + 2] == ' ');
            assert(s.subrange(j + 3, s.len() as int) =~= items_text(rest));
            assert forall|i: int| 0 <= i < rest.len() implies no_quote(#[trigger] rest[i]) by {
                assert(rest[i] == vs[i + 1]);
            }
            lemma_parse_items(rest);
            assert(seq![v0] + rest =~= vs);
        }
    }
}

/// Whether `s` holds no double quote.
pub open spec fn no_quote(s: Seq<char>) -> bool {
    forall|j: int| 0 <= j < s.len() ==> s[j] != '"'
}

/// Parsing inverts rendering for a list binding line.
pub proof fn lemma_parse_lkv(k: Seq<char>, vs: Seq<Seq<char>>)
    requires
        good_key(k),
        forall|i: int| 0 <= i < vs.len() ==> no_quote(#[trigger] vs[i]),
    ensures
        parse_line(lkv(k, vs)) == LineView::ValList(k, vs),
{
    let l = lkv(k, vs);
    let tail = kv_sep() + seq!['['] + items_text(vs) + seq![']'];
    assert(l =~= k + tail);
    assert(l[0] == k[0]);
    lemma_find_char_past_prefix(k, tail, ' ');
    assert(find_char(l, ' ') == k.len());
    let kl = k.len() as int;
    assert(l.subrange(kl, kl + 3) =~= kv_sep());
    assert(l.subrange(0, kl) =~= k);
    let vt = l.subrange(kl + 3, l.len() as int);
    assert(vt =~= seq!['['] + items_text(vs) + seq![']']);
    reveal_strlit("true");
    reveal_strlit("false");
    assert(vt[0] == '[');
    assert(vt != "true"@) by {
        if vt == "true"@ {
            assert(vt[0] == 't');
        }
    }
    assert(vt != "false"@) by {
        if vt == "false"@ {
            assert(vt[0] == 'f');
        }
    }
    assert(vt.last() == ']');
    assert(vt.subrange(1, vt.len() - 1) =~= items_text(vs));
    lemma_parse_items(vs);
}

/// Parsing recognizes the package header.
pub proof fn lemma_parse_package_header()
    ensures
        parse_line(package_header()) == LineView::HeadPackage,
{
    let l = package_header();
    assert(l[0] == '[');
    assert(l.last() == ']');
    assert(l.subrange(1, l.len() - 1) =~= "package"@);
}

/// Parsing inverts rendering for a dependency section header.
pub proof fn lemma_parse_dep_header(name: Seq<char>, dev: bool)
    ensures
        parse_line(dep_header(name, dev)) == if dev {
            LineView::HeadDev(name)
        } else {
            LineView::HeadDep(name)
        },
{
    let l = dep_header(name, dev);
    let pre: Seq<char> = if dev {
        "dev_dependencies."@
    } else {
        "dependencies."@
    };
    reveal_strlit("package");
    reveal_strlit("dependencies.");
    reveal_strlit("dev_dependencies.");
    assert(l[0] == '[');
    assert(l.last() == ']');
    let mid = l.subrange(1, l.len() - 1);
    assert(mid =~= pre + name);
    assert(mid != "package"@) by {
        if mid == "package"@ {
            assert(mid[0] == 'p');
            assert(mid[0] == 'd');
        }
    }
    if dev {
        assert(!prefix_of(mid, "dependencies."@)) by {
            if prefix_of(mid, "dependencies."@) {
                assert(mid.subrange(0, 13)[2] == 'p');
                assert(mid[2] == 'v');
            }
        }
        assert(prefix_of(mid, "dev_dependencies."@)) by {
            assert(mid.subrange(0, 17) =~= "dev_dependencies."@);
        }
        assert(mid.subrange(17, mid.len() as int) =~= name);
    } else {
        assert(prefix_of(mid, "dependencies."@)) by {
            assert(mid.subrange(0, 13) =~= "dependencies."@);
        }
        assert(mid.subrange(13, mid.len() as int) =~= name);
    }
}

// ---------------------------------------------------------------------
// The manifest layer: the package section, then one section per
// dependency, then one per development dependency. Fields stand in a
// fixed order; optional ones may be absent and fall back to their
// defaults.
// ---------------------------------------------------------------------

/// The manifest text of a package kind.
pub open spec fn type_text(t: PackageType) -> Seq<char> {
    match t {
        PackageType::Bin => "bin"@,
        PackageType::Lib => "lib"@,
        PackageType::Native => "native"@,
    }
}

/// The package kind a manifest text names.
pub open spec fn type_of_text(s: Seq<char>) -> Option<PackageType> {
    if s == "bin"@ {
        Some(PackageType::Bin)
    } else if s == "lib"@ {
        Some(PackageType::Lib)
    } else if s == "native"@ {
        Some(PackageType::Native)
    } else {
        None
    }
}

/// The line an optional string field renders to: none when absent.
pub open spec fn opt_line(k: Seq<char>, o: Option<Seq<char>>) -> Seq<Seq<char>> {
    match o {
        Some(v) => seq![qkv(k, v)],
        None => Seq::<Seq<char>>::empty(),
    }
}

/// The lines of the package section.
pub open spec fn render_pkg_lines(p: PkgView) -> Seq<Seq<char>> {
    seq![
        package_header(),
        qkv("name"@, p.name),
        qkv("version"@, p.version),
        lkv("authors"@, p.authors),
    ] + opt_line("description"@, p.description) + opt_line("license"@, p.license) + opt_line(
        "repository"@,
        p.repository,
    ) + seq![qkv("type"@, type_text(p.package_type))] + opt_line("entry"@, p.entry)
}

/// The field lines of one dependency's section, below its header.
pub open spec fn render_dep_body_lines(d: DepView) -> Seq<Seq<char>> {
    match d {
        DepView::Version(v) => seq![qkv("version"@, v)],
        DepView::Detailed { version, optional, features } => seq![
            qkv("version"@, version),
            bkv("optional"@, optional),
            lkv("features"@, features),
        ],
        DepView::Git { git, branch, tag, rev } => seq![qkv("git"@, git)] + opt_line(
            "branch"@,
            branch,
        ) + opt_line("tag"@, tag) + opt_line("rev"@, rev),
        DepView::Path { path } => seq![qkv("path"@, path)],
    }
}

/// The lines of one dependency's section.
pub open spec fn render_dep_lines(name: Seq<char>, d: DepView, dev: bool) -> Seq<Seq<char>> {
    seq![dep_header(name, dev)] + render_dep_body_lines(d)
}

/// The lines of a whole dependency list, in declaration order.
pub open spec fn render_deps_lines(entries: Seq<(Seq<char>, DepView)>, dev: bool) -> Seq<
    Seq<char>,
>
    decreases entries.len(),
{
    if entries.len() == 0 {
        Seq::empty()
    } else {
        render_dep_lines(entries[0].0, entries[0].1, dev) + render_deps_lines(
            entries.subrange(1, entries.len() as int),
            dev,
        )
    }
}

/// The lines of a whole manifest.
pub open spec fn render_manifest_lines(m: ManifestView) -> Seq<Seq<char>> {
    render_pkg_lines(m.package) + render_deps_lines(m.dependencies, false) + render_deps_lines(
        m.dev_dependencies,
        true,
    )
}

/// The text of a whole manifest.
pub open spec fn render_manifest(m: ManifestView) -> Seq<char> {
    unlines(render_manifest_lines(m))
}

/// An optional string field at line `i`: consumed when the line binds
/// exactly this key to a quoted string, skipped otherwise.
pub open spec fn opt_str_at(ls: Seq<Seq<char>>, i: int, key: Seq<char>) -> (Option<Seq<char>>, int) {
    if 0 <= i < ls.len() {
        match parse_line(ls[i]) {
            LineView::ValStr(k, v) => if k == key {
                (Some(v), i + 1)
            } else {
                (None, i)
            },
            _ => (None, i),
        }
    } else {
        (None, i)
    }
}

/// A required string field at line `i`.
pub open spec fn req_str_at(ls: Seq<Seq<char>>, i: int, key: Seq<char>) -> Option<(Seq<char>, int)> {
    if 0 <= i < ls.len() {
        match parse_line(ls[i]) {
            LineView::ValStr(k, v) => if k == key {
                Some((v, i + 1))
            } else {
                None
            },
            _ => None,
        }
    } else {
        None
    }
}

/// An optional boolean field at line `i`.
pub open spec fn opt_bool_at(ls: Seq<Seq<char>>, i: int, key: Seq<char>) -> (Option<bool>, int) {
    if 0 <= i < ls.len() {
        match parse_line(ls[i]) {
            LineView::ValBool(k, b) => if k == key {
                (Some(b), i + 1)
            } else {
                (None, i)
            },
            _ => (None, i),
        }
    } else {
        (None, i)
    }
}

/// An optional list field at line `i`.
pub open spec fn opt_list_at(ls: Seq<Seq<char>>, i: int, key: Seq<char>) -> (
    Option<Seq<Seq<char>>>,
    int,
) {
    if 0 <= i < ls.len() {
        match parse_line(ls[i]) {
            LineView::ValList(k, vs) => if k == key {
                (Some(vs), i + 1)
            } else {
                (None, i)
            },
            _ => (None, i),
        }
    } else {
        (None, i)
    }
}

/// A required list field at line `i`.
pub open spec fn req_list_at(ls: Seq<Seq<char>>, i: int, key: Seq<char>) -> Option<
    (Seq<Seq<char>>, int),
> {
    if 0 <= i < ls.len() {
        match parse_line(ls[i]) {
            LineView::ValList(k, vs) => if k == key {
                Some((vs, i + 1))
            } else {
                None
            },
            _ => None,
        }
    } else {
        None
    }
}

/// The package section: its header, the required identity fields, the
/// optional descriptive ones, the kind, and the optional entry point.
pub open spec fn parse_pkg_at(ls: Seq<Seq<char>>) -> Option<(PkgView, int)> {
    if ls.len() > 0 && parse_line(ls[0]) == LineView::HeadPackage {
        match req_str_at(ls, 1, "name"@) {
            Some((name, i1)) => match req_str_at(ls, i1, "version"@) {
                Some((version, i2)) => match req_list_at(ls, i2, "authors"@) {
                    Some((authors, i3)) => {
                        let (description, i4) = opt_str_at(ls, i3, "description"@);
                        let (license, i5) = opt_str_at(ls, i4, "license"@);
                        let (repository, i6) = opt_str_at(ls, i5, "repository"@);
                        match req_str_at(ls, i6, "type"@) {
                            Some((ty, i7)) => match type_of_text(ty) {
                                Some(package_type) => {
                                    let (entry, i8) = opt_str_at(ls, i7, "entry"@);
                                    Some(
                                        (
                                            PkgView {
                                                name,
                                                version,
                                                authors,
                                                description,
                                                license,
                                                repository,
                                                package_type,
                                                entry,
                                            },
                                            i8,
                                        ),
                                    )
                                },
                                None => None,
                            },
                            None => None,
                        }
                    },
                    None => None,
                },
                None => None,
            },
            None => None,
        }
    } else {
        None
    }
}

/// One dependency's fields, decided by the first key: a path, a git
/// source with its optional refs, or a version. A bare version is the
/// simple form; a version joined by `optional` or `features` is the
/// detailed form, with the documented defaults for whichever is absent.
pub open spec fn parse_dep_body_at(ls: Seq<Seq<char>>, i: int) -> Option<(DepView, int)> {
    match req_str_at(ls, i, "path"@) {
        Some((path, i2)) => Some((DepView::Path { path }, i2)),
        None => match req_str_at(ls, i, "git"@) {
            Some((git, i2)) => {
                let (branch, i3) = opt_str_at(ls, i2, "branch"@);
                let (tag, i4) = opt_str_at(ls, i3, "tag"@);
                let (rev, i5) = opt_str_at(ls, i4, "rev"@);
                Some((DepView::Git { git, branch, tag, rev }, i5))
            },
            None => match req_str_at(ls, i, "version"@) {
                Some((version, i2)) => {
                    let (optional, i3) = opt_bool_at(ls, i2, "optional"@);
                    let (features, i4) = opt_list_at(ls, i3, "features"@);
                    if optional is None && features is None {
                        Some((DepView::Version(version), i4))
                    } else {
                        Some(
                            (
                                DepView::Detailed {
                                    version,
                                    optional: match optional {
                                        Some(b) => b,
                                        None => false,
                                    },
                                    features: match features {
                                        Some(vs) => vs,
                                        None => Seq::empty(),
                                    },
                                },
                                i4,
                            ),
                        )
                    }
                },
                None => None,
            },
        },
    }
}

/// Every field reader moves forward and stays within the line list.
pub proof fn lemma_dep_body_advances(ls: Seq<Seq<char>>, i: int)
    requires
        0 <= i <= ls.len(),
    ensures
        match parse_dep_body_at(ls, i) {
            Some((d, j)) => i < j <= ls.len(),
            None => true,
        },
{
}

/// The run of dependency sections for one of the two lists, ending at
/// the first line that is not a matching section header.
pub open spec fn parse_deps_at(ls: Seq<Seq<char>>, i: int, dev: bool) -> Option<
    (Seq<(Seq<char>, DepView)>, int),
>
    decreases ls.len() - i,
    when 0 <= i <= ls.len()
    via parse_deps_at_dec
{
    if i < ls.len() {
        match parse_line(ls[i]) {
            LineView::HeadDep(name) => if !dev {
                match parse_dep_body_at(ls, i + 1) {
                    Some((d, i2)) => match parse_deps_at(ls, i2, dev) {
                        Some((rest, i3)) => Some((seq![(name, d)] + rest, i3)),
                        None => None,
                    },
                    None => None,
                }
            } else {
                Some((Seq::empty(), i))
            },
            LineView::HeadDev(name) => if dev {
                match parse_dep_body_at(ls, i + 1) {
                    Some((d, i2)) => match parse_deps_at(ls, i2, dev) {
                        Some((rest, i3)) => Some((seq![(name, d)] + rest, i3)),
                        None => None,
                    },
                    None => None,
                }
            } else {
                Some((Seq::empty(), i))
            },
            _ => Some((Seq::empty(), i)),
        }
    } else {
        Some((Seq::empty(), i))
    }
}

#[via_fn]
proof fn parse_deps_at_dec(ls: Seq<Seq<char>>, i: int, dev: bool) {
    if 0 <= i < ls.len() {
        lemma_dep_body_advances(ls, i + 1);
    }
}

/// A whole manifest's lines: the package section, the dependency
/// sections, the development-dependency sections, nothing after them,
/// and no dependency name declared twice.
pub open spec fn parse_manifest_lines(ls: Seq<Seq<char>>) -> Option<ManifestView> {
    match parse_pkg_at(ls) {
        Some((package, i)) => if 0 <= i <= ls.len() {
            match parse_deps_at(ls, i, false) {
                Some((dependencies, i2)) => if 0 <= i2 <= ls.len() {
                    match parse_deps_at(ls, i2, true) {
                        Some((dev_dependencies, i3)) => if i3 == ls.len() && names_unique(
                            dependencies,
                        ) && names_unique(dev_dependencies) {
                            Some(ManifestView { package, dependencies, dev_dependencies })
                        } else {
                            None
                        },
                        None => None,
                    }
                } else {
                    None
                },
                None => None,
            }
        } else {
            None
        },
        None => None,
    }
}

/// What a manifest text means, when it is well formed.
pub open spec fn parse_manifest(s: Seq<char>) -> Option<ManifestView> {
    parse_manifest_lines(lines_of(s))
}

// ---------------------------------------------------------------------
// Round trip: rendering a manifest and parsing the text gives the same
// manifest back, field for field, provided its strings can sit on a
// manifest line at all: no string holds a newline, and no list item
// holds a double quote.
// ---------------------------------------------------------------------

/// Whether an optional field's text can sit on a line.
pub open spec fn opt_text_safe(o: Option<Seq<char>>) -> bool {
    match o {
        Some(v) => no_nl(v),
        None => true,
    }
}

/// Whether the package section's fields can sit on their lines.
pub open spec fn pkg_text_safe(p: PkgView) -> bool {
    &&& no_nl(p.name)
    &&& no_nl(p.version)
    &&& forall|i: int| 0 <= i < p.authors.len() ==> no_nl(#[trigger] p.authors[i]) && no_quote(
        p.authors[i],
    )
    &&& opt_text_safe(p.description)
    &&& opt_text_safe(p.license)
    &&& opt_text_safe(p.repository)
    &&& opt_text_safe(p.entry)
}

/// Whether one dependency's fields can sit on their lines.
pub open spec fn dep_text_safe(name: Seq<char>, d: DepView) -> bool {
    &&& no_nl(name)
    &&& match d {
        DepView::Version(v) => no_nl(v),
        DepView::Detailed { version, optional, features } => no_nl(version) && forall|i: int|
            0 <= i < features.len() ==> no_nl(#[trigger] features[i]) && no_quote(features[i]),
        DepView::Git { git, branch, tag, rev } => no_nl(git) && opt_text_safe(branch)
            && opt_text_safe(tag) && opt_text_safe(rev),
        DepView::Path { path } => no_nl(path),
    }
}

/// Whether a dependency list's fields can sit on their lines.
pub open spec fn deps_text_safe(entries: Seq<(Seq<char>, DepView)>) -> bool {
    forall|i: int| 0 <= i < entries.len() ==> dep_text_safe(
        (#[trigger] entries[i]).0,
        entries[i].1,
    )
}

/// Whether a whole manifest can be written down and read back.
pub open spec fn manifest_text_safe(m: ManifestView) -> bool {
    &&& pkg_text_safe(m.package)
    &&& deps_text_safe(m.dependencies)
    &&& deps_text_safe(m.dev_dependencies)
}

proof fn lemma_concat_no_nl(a: Seq<char>, b: Seq<char>)
    requires
        no_nl(a),
        no_nl(b),
    ensures
        no_nl(a + b),
{
    assert forall|j: int| 0 <= j < (a + b).len() implies (a + b)[j] != '\n' by {
        if j < a.len() {
            assert((a + b)[j] == a[j]);
        } else {
            assert((a + b)[j] == b[j - a.len()]);
        }
    }
}

proof fn lemma_items_text_no_nl(vs: Seq<Seq<char>>)
    requires
        forall|i: int| 0 <= i < vs.len() ==> no_nl(#[trigger] vs[i]),
    ensures
        no_nl(items_text(vs)),
    decreases vs.len(),
{
    if vs.len() == 0 {
    } else if vs.len() == 1 {
        lemma_concat_no_nl(seq!['"'], vs[0]);
        lemma_concat_no_nl(seq!['"'] + vs[0], seq!['"']);
        assert(quoted(vs[0]) == seq!['"'] + vs[0] + seq!['"']);
    } else {
        let rest = vs.subrange(1, vs.len() as int);
        assert forall|i: int| 0 <= i < rest.len() implies no_nl(#[trigger] rest[i]) by {
            assert(rest[i] == vs[i + 1]);
        }
        lemma_items_text_no_nl(rest);
        lemma_concat_no_nl(seq!['"'], vs[0]);
        lemma_concat_no_nl(seq!['"'] + vs[0], seq!['"']);
        lemma_concat_no_nl(quoted(vs[0]), seq![',', ' ']);
        lemma_concat_no_nl(quoted(vs[0]) + seq![',', ' '], items_text(rest));
    }
}

/// Every key, kind text, and header prefix this format writes, together
/// with the facts the inversion proofs need about them: each is a good
/// key free of newlines, and the keys that may meet each other while an
/// optional field is skipped are distinct.
proof fn lemma_keys()
    ensures
        good_key("name"@) && no_nl("name"@),
        good_key("version"@) && no_nl("version"@),
        good_key("authors"@) && no_nl("authors"@),
        good_key("description"@) && no_nl("description"@),
        good_key("license"@) && no_nl("license"@),
        good_key("repository"@) && no_nl("repository"@),
        good_key("type"@) && no_nl("type"@),
        good_key("entry"@) && no_nl("entry"@),
        good_key("path"@) && no_nl("path"@),
        good_key("git"@) && no_nl("git"@),
        good_key("branch"@) && no_nl("branch"@),
        good_key("tag"@) && no_nl("tag"@),
        good_key("rev"@) && no_nl("rev"@),
        good_key("optional"@) && no_nl("optional"@),
        good_key("features"@) && no_nl("features"@),
        no_nl("true"@) && no_nl("false"@),
        no_nl("bin"@) && no_nl("lib"@) && no_nl("native"@),
        no_nl("package"@) && no_nl("dependencies."@) && no_nl("dev_dependencies."@),
        "license"@ != "description"@,
        "repository"@ != "description"@,
        "type"@ != "description"@,
        "repository"@ != "license"@,
        "type"@ != "license"@,
        "type"@ != "repository"@,
        "entry"@ != "type"@,
        "git"@ != "path"@,
        "version"@ != "path"@,
        "version"@ != "git"@,
        "tag"@ != "branch"@,
        "rev"@ != "branch"@,
        "rev"@ != "tag"@,
        "optional"@ != "version"@,
        "features"@ != "version"@,
        "features"@ != "optional"@,
        type_of_text(type_text(PackageType::Bin)) == Some(PackageType::Bin),
        type_of_text(type_text(PackageType::Lib)) == Some(PackageType::Lib),
        type_of_text(type_text(PackageType::Native)) == Some(PackageType::Native),
{
    reveal_strlit("name");
    reveal_strlit("version");
    reveal_strlit("authors");
    reveal_strlit("description");
    reveal_strlit("license");
    reveal_strlit("repository");
    reveal_strlit("type");
    reveal_strlit("entry");
    reveal_strlit("path");
    reveal_strlit("git");
    reveal_strlit("branch");
    reveal_strlit("tag");
    reveal_strlit("rev");
    reveal_strlit("optional");
    reveal_strlit("features");
    reveal_strlit("true");
    reveal_strlit("false");
    reveal_strlit("bin");
    reveal_strlit("lib");
    reveal_strlit("native");
    reveal_strlit("package");
    reveal_strlit("dependencies.");
    reveal_strlit("dev_dependencies.");
    assert("rev"@ != "tag"@) by {
        if "rev"@ == "tag"@ {
            assert("rev"@[0] == 't');
        }
    }
    assert("features"@ != "optional"@) by {
        if "features"@ == "optional"@ {
            assert("features"@[0] == 'o');
        }
    }
    assert("lib"@ != "bin"@) by {
        if "lib"@ == "bin"@ {
            assert("lib"@[0] == 'b');
        }
    }
    assert("native"@ != "bin"@) by {
        if "native"@ == "bin"@ {
            assert("native"@[0] == 'b');
        }
    }
}

proof fn lemma_qkv_no_nl(k: Seq<char>, v: Seq<char>)
    requires
        no_nl(k),
        no_nl(v),
    ensures
        no_nl(qkv(k, v)),
{
    lemma_concat_no_nl(seq!['"'], v);
    lemma_concat_no_nl(seq!['"'] + v, seq!['"']);
    assert(no_nl(quoted(v)));
    lemma_concat_no_nl(k, kv_sep());
    lemma_concat_no_nl(k + kv_sep(), quoted(v));
}

proof fn lemma_bkv_no_nl(k: Seq<char>, b: bool)
    requires
        no_nl(k),
        no_nl("true"@),
        no_nl("false"@),
    ensures
        no_nl(bkv(k, b)),
{
    lemma_concat_no_nl(k, kv_sep());
    if b {
        lemma_concat_no_nl(k + kv_sep(), "true"@);
    } else {
        lemma_concat_no_nl(k + kv_sep(), "false"@);
    }
}

proof fn lemma_lkv_no_nl(k: Seq<char>, vs: Seq<Seq<char>>)
    requires
        no_nl(k),
        forall|i: int| 0 <= i < vs.len() ==> no_nl(#[trigger] vs[i]),
    ensures
        no_nl(lkv(k, vs)),
{
    lemma_items_text_no_nl(vs);
    lemma_concat_no_nl(k, kv_sep());
    lemma_concat_no_nl(k + kv_sep(), seq!['[']);
    lemma_concat_no_nl(k + kv_sep() + seq!['['], items_text(vs));
    lemma_concat_no_nl(k + kv_sep() + seq!['['] + items_text(vs), seq![']']);
}

proof fn lemma_header_no_nl(name: Seq<char>, dev: bool)
    requires
        no_nl(name),
        no_nl("dependencies."@),
        no_nl("dev_dependencies."@),
    ensures
        no_nl(dep_header(name, dev)),
{
    let pre: Seq<char> = if dev {
        "dev_dependencies."@
    } else {
        "dependencies."@
    };
    lemma_concat_no_nl(seq!['['], pre);
    lemma_concat_no_nl(seq!['['] + pre, name);
    lemma_concat_no_nl(seq!['['] + pre + name, seq![']']);
}

/// Every line the package section renders to is free of newlines.
proof fn lemma_render_pkg_lines_no_nl(p: PkgView)
    requires
        pkg_text_safe(p),
    ensures
        forall|i: int| 0 <= i < render_pkg_lines(p).len() ==> no_nl(
            #[trigger] render_pkg_lines(p)[i],
        ),
{
    lemma_keys();
    let ls = render_pkg_lines(p);
    lemma_concat_no_nl(seq!['['], "package"@);
    lemma_concat_no_nl(seq!['['] + "package"@, seq![']']);
    assert(no_nl(package_header()));
    lemma_qkv_no_nl("name"@, p.name);
    lemma_qkv_no_nl("version"@, p.version);
    lemma_lkv_no_nl("authors"@, p.authors);
    match p.description {
        Some(d) => lemma_qkv_no_nl("description"@, d),
        None => {},
    }
    match p.license {
        Some(v) => lemma_qkv_no_nl("license"@, v),
        None => {},
    }
    match p.repository {
        Some(v) => lemma_qkv_no_nl("repository"@, v),
        None => {},
    }
    assert(no_nl(type_text(p.package_type)));
    lemma_qkv_no_nl("type"@, type_text(p.package_type));
    match p.entry {
        Some(v) => lemma_qkv_no_nl("entry"@, v),
        None => {},
    }
    assert forall|i: int| 0 <= i < ls.len() implies no_nl(#[trigger] ls[i]) by {}
}

/// Every line one dependency's section renders to is free of newlines.
proof fn lemma_render_dep_lines_no_nl(name: Seq<char>, d: DepView, dev: bool)
    requires
        dep_text_safe(name, d),
    ensures
        forall|i: int| 0 <= i < render_dep_lines(name, d, dev).len() ==> no_nl(
            #[trigger] render_dep_lines(name, d, dev)[i],
        ),
{
    lemma_keys();
    let ls = render_dep_lines(name, d, dev);
    lemma_header_no_nl(name, dev);
    match d {
        DepView::Version(v) => {
            lemma_qkv_no_nl("version"@, v);
        },
        DepView::Detailed { version, optional, features } => {
            lemma_qkv_no_nl("version"@, version);
            lemma_bkv_no_nl("optional"@, optional);
            lemma_lkv_no_nl("features"@, features);
        },
        DepView::Git { git, branch, tag, rev } => {
            lemma_qkv_no_nl("git"@, git);
            match branch {
                Some(v) => lemma_qkv_no_nl("branch"@, v),
                None => {},
            }
            match tag {
                Some(v) => lemma_qkv_no_nl("tag"@, v),
                None => {},
            }
            match rev {
                Some(v) => lemma_qkv_no_nl("rev"@, v),
                None => {},
            }
        },
        DepView::Path { path } => {
            lemma_qkv_no_nl("path"@, path);
        },
    }
    assert forall|i: int| 0 <= i < ls.len() implies no_nl(#[trigger] ls[i]) by {}
}

/// Every line a dependency list renders to is free of newlines.
proof fn lemma_render_deps_lines_no_nl(entries: Seq<(Seq<char>, DepView)>, dev: bool)
    requires
        deps_text_safe(entries),
    ensures
        forall|i: int| 0 <= i < render_deps_lines(entries, dev).len() ==> no_nl(
            #[trigger] render_deps_lines(entries, dev)[i],
        ),
    decreases entries.len(),
{
    if entries.len() == 0 {
    } else {
        let rest = entries.subrange(1, entries.len() as int);
        assert forall|i: int|
            0 <= i < rest.len() implies dep_text_safe((#[trigger] rest[i]).0, rest[i].1) by {
            assert(rest[i] == entries[i + 1]);
        }
        lemma_render_dep_lines_no_nl(entries[0].0, entries[0].1, dev);
        lemma_render_deps_lines_no_nl(rest, dev);
        let head = render_dep_lines(entries[0].0, entries[0].1, dev);
        let tail = render_deps_lines(rest, dev);
        assert forall|i: int|
            0 <= i < render_deps_lines(entries, dev).len() implies no_nl(
            #[trigger] render_deps_lines(entries, dev)[i],
        ) by {
            if i < head.len() {
                assert(render_deps_lines(entries, dev)[i] == head[i]);
            } else {
                assert(render_deps_lines(entries, dev)[i] == tail[i - head.len()]);
            }
        }
    }
}

/// Pointwise form of a segment equality.
proof fn lemma_segment_indexes(ls: Seq<Seq<char>>, i: int, r: Seq<Seq<char>>)
    requires
        0 <= i,
        i + r.len() <= ls.len(),
        ls.subrange(i, i + r.len() as int) == r,
    ensures
        forall|k: int| 0 <= k < r.len() ==> ls[i + k] == #[trigger] r[k],
{
    assert forall|k: int| 0 <= k < r.len() implies ls[i + k] == #[trigger] r[k] by {
        assert(ls.subrange(i, i + r.len() as int)[k] == ls[i + k]);
    }
}

/// Parsing inverts rendering for the package section: on text that opens
/// with a rendered package section and continues with a dependency
/// header (or nothing), the parser returns exactly the rendered fields
/// and stops exactly at the section's end.
#[verifier::rlimit(60)]
proof fn lemma_parse_pkg_inv(ls: Seq<Seq<char>>, p: PkgView)
    requires
        pkg_text_safe(p),
        render_pkg_lines(p).len() <= ls.len(),
        ls.subrange(0, render_pkg_lines(p).len() as int) == render_pkg_lines(p),
        render_pkg_lines(p).len() < ls.len() ==> (parse_line(ls[render_pkg_lines(p).len() as int])
            is HeadDep || parse_line(ls[render_pkg_lines(p).len() as int]) is HeadDev),
    ensures
        parse_pkg_at(ls) == Some((p, render_pkg_lines(p).len() as int)),
{
    lemma_keys();
    let r = render_pkg_lines(p);
    lemma_segment_indexes(ls, 0, r);
    let o1: int = if p.description is Some {
        1
    } else {
        0
    };
    let o2: int = if p.license is Some {
        1
    } else {
        0
    };
    let o3: int = if p.repository is Some {
        1
    } else {
        0
    };
    let o4: int = if p.entry is Some {
        1
    } else {
        0
    };
    assert(r.len() == 5 + o1 + o2 + o3 + o4);
    // identify each rendered line
    assert(r[0] == package_header());
    assert(r[1] == qkv("name"@, p.name));
    assert(r[2] == qkv("version"@, p.version));
    assert(r[3] == lkv("authors"@, p.authors));
    lemma_parse_package_header();
    lemma_parse_qkv("name"@, p.name);
    lemma_parse_qkv("version"@, p.version);
    lemma_parse_lkv("authors"@, p.authors);
    assert(req_str_at(ls, 1, "name"@) == Some((p.name, 2int)));
    assert(req_str_at(ls, 2, "version"@) == Some((p.version, 3int)));
    assert(req_list_at(ls, 3, "authors"@) == Some((p.authors, 4int)));
    // the type line, and the lines of whichever optional fields exist
    let ti = 4 + o1 + o2 + o3;
    assert(r[ti] == qkv("type"@, type_text(p.package_type)));
    lemma_parse_qkv("type"@, type_text(p.package_type));
    match p.description {
        Some(d) => {
            assert(r[4] == qkv("description"@, d));
            lemma_parse_qkv("description"@, d);
        },
        None => {},
    }
    match p.license {
        Some(v) => {
            assert(r[4 + o1] == qkv("license"@, v));
            lemma_parse_qkv("license"@, v);
        },
        None => {},
    }
    match p.repository {
        Some(v) => {
            assert(r[4 + o1 + o2] == qkv("repository"@, v));
            lemma_parse_qkv("repository"@, v);
        },
        None => {},
    }
    match p.entry {
        Some(v) => {
            assert(r[ti + 1] == qkv("entry"@, v));
            lemma_parse_qkv("entry"@, v);
        },
        None => {},
    }
    // the description reader
    assert(opt_str_at(ls, 4, "description"@) == (p.description, 4 + o1)) by {
        if p.description is None {
            match p.license {
                Some(v) => assert(ls[4] == qkv("license"@, v)),
                None => match p.repository {
                    Some(v) => assert(ls[4] == qkv("repository"@, v)),
                    None => assert(ls[4] == qkv("type"@, type_text(p.package_type))),
                },
            }
        }
    }
    // the license reader
    assert(opt_str_at(ls, 4 + o1, "license"@) == (p.license, 4 + o1 + o2)) by {
        if p.license is None {
            match p.repository {
                Some(v) => assert(ls[4 + o1] == qkv("repository"@, v)),
                None => assert(ls[4 + o1] == qkv("type"@, type_text(p.package_type))),
            }
        }
    }
    // the repository reader
    assert(opt_str_at(ls, 4 + o1 + o2, "repository"@) == (p.repository, ti)) by {
        if p.repository is None {
            assert(ls[ti] == qkv("type"@, type_text(p.package_type)));
        }
    }
    // the kind
    assert(req_str_at(ls, ti, "type"@) == Some((type_text(p.package_type), ti + 1)));
    // the entry reader
    assert(opt_str_at(ls, ti + 1, "entry"@) == (p.entry, r.len() as int)) by {
        if p.entry is None {
            assert(ti + 1 == r.len());
        }
    }
}

/// The git case of `lemma_parse_dep_body_inv`.
#[verifier::rlimit(80)]
proof fn lemma_parse_dep_body_inv_git(ls: Seq<Seq<char>>, i: int, d: DepView)
    requires
        d is Git,
        dep_text_safe(Seq::empty(), d),
        0 <= i,
        i + render_dep_body_lines(d).len() <= ls.len(),
        ls.subrange(i, i + render_dep_body_lines(d).len() as int) == render_dep_body_lines(d),
        i + render_dep_body_lines(d).len() < ls.len() ==> (parse_line(
            ls[i + render_dep_body_lines(d).len() as int],
        ) is HeadDep || parse_line(ls[i + render_dep_body_lines(d).len() as int]) is HeadDev),
    ensures
        parse_dep_body_at(ls, i) == Some((d, i + render_dep_body_lines(d).len())),
{
    lemma_keys();
    let b = render_dep_body_lines(d);
    lemma_segment_indexes(ls, i, b);
    match d {
        DepView::Git { git, branch, tag, rev } => {
            let g1: int = if branch is Some {
                1
            } else {
                0
            };
            let g2: int = if tag is Some {
                1
            } else {
                0
            };
            let g3: int = if rev is Some {
                1
            } else {
                0
            };
            assert(b.len() == 1 + g1 + g2 + g3);
            assert(b[0] == qkv("git"@, git));
            lemma_parse_qkv("git"@, git);
            assert(ls[i + 0] == qkv("git"@, git));
            match branch {
                Some(v) => {
                    assert(b[1] == qkv("branch"@, v));
                    lemma_parse_qkv("branch"@, v);
                    assert(ls[i + 1] == qkv("branch"@, v));
                },
                None => {},
            }
            match tag {
                Some(v) => {
                    assert(b[1 + g1] == qkv("tag"@, v));
                    lemma_parse_qkv("tag"@, v);
                    assert(ls[i + 1 + g1] == qkv("tag"@, v));
                },
                None => {},
            }
            match rev {
                Some(v) => {
                    assert(b[1 + g1 + g2] == qkv("rev"@, v));
                    lemma_parse_qkv("rev"@, v);
                    assert(ls[i + 1 + g1 + g2] == qkv("rev"@, v));
                },
                None => {},
            }
            assert(opt_str_at(ls, i + 1, "branch"@) == (branch, i + 1 + g1)) by {
                if branch is None {
                    match tag {
                        Some(v) => assert(ls[i + 1] == qkv("tag"@, v)),
                        None => match rev {
                            Some(v) => assert(ls[i + 1] == qkv("rev"@, v)),
                            None => {},
                        },
                    }
                }
            }
            assert(opt_str_at(ls, i + 1 + g1, "tag"@) == (tag, i + 1 + g1 + g2)) by {
                if tag is None {
                    match rev {
                        Some(v) => assert(ls[i + 1 + g1] == qkv("rev"@, v)),
                        None => {},
                    }
                }
            }
            assert(opt_str_at(ls, i + 1 + g1 + g2, "rev"@) == (rev, i + b.len())) by {}
        },
        _ => {},
    }
}

/// Parsing inverts rendering for one dependency's field lines: on text
/// that continues with a section header (or nothing) after them, the
/// parser returns exactly the rendered dependency.
#[verifier::rlimit(50)]
proof fn lemma_parse_dep_body_inv(ls: Seq<Seq<char>>, i: int, d: DepView)
    requires
        dep_text_safe(Seq::empty(), d),
        0 <= i,
        i + render_dep_body_lines(d).len() <= ls.len(),
        ls.subrange(i, i + render_dep_body_lines(d).len() as int) == render_dep_body_lines(d),
        i + render_dep_body_lines(d).len() < ls.len() ==> (parse_line(
            ls[i + render_dep_body_lines(d).len() as int],
        ) is HeadDep || parse_line(ls[i + render_dep_body_lines(d).len() as int]) is HeadDev),
    ensures
        parse_dep_body_at(ls, i) == Some((d, i + render_dep_body_lines(d).len())),
{
    lemma_keys();
    let b = render_dep_body_lines(d);
    lemma_segment_indexes(ls, i, b);
    match d {
        DepView::Version(v) => {
            assert(b[0] == qkv("version"@, v));
            lemma_parse_qkv("version"@, v);
            assert(ls[i + 0] == qkv("version"@, v));
        },
        DepView::Detailed { version, optional, features } => {
            assert(b[0] == qkv("version"@, version));
            assert(b[1] == bkv("optional"@, optional));
            assert(b[2] == lkv("features"@, features));
            lemma_parse_qkv("version"@, version);
            lemma_parse_bkv("optional"@, optional);
            lemma_parse_lkv("features"@, features);
            assert(ls[i + 0] == qkv("version"@, version));
            assert(ls[i + 1] == bkv("optional"@, optional));
            assert(ls[i + 2] == lkv("features"@, features));
        },
        DepView::Git { .. } => {
            lemma_parse_dep_body_inv_git(ls, i, d);
        },
        DepView::Path { path } => {
            assert(b[0] == qkv("path"@, path));
            lemma_parse_qkv("path"@, path);
            assert(ls[i + 0] == qkv("path"@, path));
        },
    }
}

/// Parsing inverts rendering for a run of dependency sections: with the
/// matching headers exhausted (the text then continues with the other
/// list's header, or ends), the parser returns exactly the rendered
/// entries in order.
proof fn lemma_parse_deps_inv(
    ls: Seq<Seq<char>>,
    i: int,
    entries: Seq<(Seq<char>, DepView)>,
    dev: bool,
)
    requires
        deps_text_safe(entries),
        0 <= i,
        i + render_deps_lines(entries, dev).len() <= ls.len(),
        ls.subrange(i, i + render_deps_lines(entries, dev).len() as int) == render_deps_lines(
            entries,
            dev,
        ),
        i + render_deps_lines(entries, dev).len() < ls.len() ==> (!dev && parse_line(
            ls[i + render_deps_lines(entries, dev).len() as int],
        ) is HeadDev),
    ensures
        parse_deps_at(ls, i, dev) == Some((entries, i + render_deps_lines(entries, dev).len())),
    decreases entries.len(),
{
    let r = render_deps_lines(entries, dev);
    lemma_segment_indexes(ls, i, r);
    if entries.len() == 0 {
    } else {
        let name = entries[0].0;
        let d = entries[0].1;
        let rest = entries.subrange(1, entries.len() as int);
        let head = render_dep_lines(name, d, dev);
        let body = render_dep_body_lines(d);
        let r_rest = render_deps_lines(rest, dev);
        assert(r =~= head + r_rest);
        assert(r[0] == dep_header(name, dev));
        lemma_parse_dep_header(name, dev);
        assert(ls[i + 0] == dep_header(name, dev));
        assert forall|k: int| 0 <= k < body.len() implies ls[i + 1 + k] == #[trigger] body[k] by {
            assert(r[1 + k] == (head + r_rest)[1 + k]);
            assert(head[1 + k] == body[k]);
        }
        assert(ls.subrange(i + 1, i + 1 + body.len() as int) =~= body);
        let after_body = i + 1 + body.len();
        if r_rest.len() > 0 {
            assert(r_rest =~= render_dep_lines(rest[0].0, rest[0].1, dev) + render_deps_lines(
                rest.subrange(1, rest.len() as int),
                dev,
            ));
            assert(r[1 + body.len() as int] == r_rest[0]);
            assert(r_rest[0] == dep_header(rest[0].0, dev));
            lemma_parse_dep_header(rest[0].0, dev);
            assert(parse_line(ls[after_body]) is HeadDep || parse_line(ls[after_body])
                is HeadDev);
        }
        assert(dep_text_safe(Seq::empty(), d)) by {
            assert(dep_text_safe(entries[0].0, entries[0].1));
        }
        lemma_parse_dep_body_inv(ls, i + 1, d);
        assert(parse_dep_body_at(ls, i + 1) == Some((d, after_body)));
        assert forall|k: int|
            0 <= k < rest.len() implies dep_text_safe((#[trigger] rest[k]).0, rest[k].1) by {
            assert(rest[k] == entries[k + 1]);
        }
        assert forall|k: int| 0 <= k < r_rest.len() implies ls.subrange(
            after_body,
            after_body + r_rest.len() as int,
        )[k] == #[trigger] r_rest[k] by {
            assert(r[1 + body.len() as int + k] == (head + r_rest)[1 + body.len() as int + k]);
        }
        assert(ls.subrange(after_body, after_body + r_rest.len() as int) =~= r_rest);
        lemma_parse_deps_inv(ls, after_body, rest, dev);
        assert(seq![(name, d)] + rest =~= entries);
    }
}

/// Every line a manifest renders to is free of newlines.
proof fn lemma_render_manifest_lines_no_nl(m: ManifestView)
    requires
        manifest_text_safe(m),
    ensures
        forall|i: int| 0 <= i < render_manifest_lines(m).len() ==> no_nl(
            #[trigger] render_manifest_lines(m)[i],
        ),
{
    lemma_render_pkg_lines_no_nl(m.package);
    lemma_render_deps_lines_no_nl(m.dependencies, false);
    lemma_render_deps_lines_no_nl(m.dev_dependencies, true);
    let a = render_pkg_lines(m.package);
    let b = render_deps_lines(m.dependencies, false);
    let c = render_deps_lines(m.dev_dependencies, true);
    assert forall|i: int| 0 <= i < render_manifest_lines(m).len() implies no_nl(
        #[trigger] render_manifest_lines(m)[i],
    ) by {
        if i < a.len() {
            assert(render_manifest_lines(m)[i] == a[i]);
        } else if i < a.len() + b.len() {
            assert(render_manifest_lines(m)[i] == b[i - a.len()]);
        } else {
            assert(render_manifest_lines(m)[i] == c[i - a.len() - b.len()]);
        }
    }
}

/// Round trip: writing a manifest down and reading the text back gives
/// the same manifest, field for field, including every absent optional
/// field loading as its default. This holds for every manifest whose
/// strings can be written at all: none holds a newline, no list item
/// holds a double quote, and no dependency name is declared twice.
pub proof fn lemma_manifest_round_trip(m: ManifestView)
    requires
        manifest_text_safe(m),
        names_unique(m.dependencies),
        names_unique(m.dev_dependencies),
    ensures
        parse_manifest(render_manifest(m)) == Some(m),
{
    let l = render_manifest_lines(m);
    lemma_render_manifest_lines_no_nl(m);
    lemma_lines_of_unlines(l);
    assert(lines_of(render_manifest(m)) == l);
    let a = render_pkg_lines(m.package);
    let b = render_deps_lines(m.dependencies, false);
    let c = render_deps_lines(m.dev_dependencies, true);
    assert(l =~= a + b + c);
    // the package section sits first, followed by a header or nothing
    assert(l.subrange(0, a.len() as int) =~= a);
    if b.len() > 0 {
        assert(b =~= render_dep_lines(m.dependencies[0].0, m.dependencies[0].1, false)
            + render_deps_lines(m.dependencies.subrange(1, m.dependencies.len() as int), false));
        assert(b[0] == dep_header(m.dependencies[0].0, false));
        lemma_parse_dep_header(m.dependencies[0].0, false);
        assert(l[a.len() as int] == b[0]);
    } else if c.len() > 0 {
        assert(c =~= render_dep_lines(m.dev_dependencies[0].0, m.dev_dependencies[0].1, true)
            + render_deps_lines(
            m.dev_dependencies.subrange(1, m.dev_dependencies.len() as int),
            true,
        ));
        assert(c[0] == dep_header(m.dev_dependencies[0].0, true));
        lemma_parse_dep_header(m.dev_dependencies[0].0, true);
        assert(l[a.len() as int] == c[0]);
    }
    lemma_parse_pkg_inv(l, m.package);
    assert(parse_pkg_at(l) == Some((m.package, a.len() as int)));
    // the dependency sections follow, up to the first dev header or end
    assert(l.subrange(a.len() as int, a.len() + b.len() as int) =~= b);
    if a.len() + b.len() < l.len() {
        assert(c.len() > 0);
        assert(c =~= render_dep_lines(m.dev_dependencies[0].0, m.dev_dependencies[0].1, true)
            + render_deps_lines(
            m.dev_dependencies.subrange(1, m.dev_dependencies.len() as int),
            true,
        ));
        assert(c[0] == dep_header(m.dev_dependencies[0].0, true));
        lemma_parse_dep_header(m.dev_dependencies[0].0, true);
        assert(l[a.len() + b.len() as int] == c[0]);
    }
    lemma_parse_deps_inv(l, a.len() as int, m.dependencies, false);
    // the development sections close the text
    assert(l.subrange(a.len() + b.len() as int, l.len() as int) =~= c);
    lemma_parse_deps_inv(l, a.len() + b.len() as int, m.dev_dependencies, true);
    assert(parse_manifest_lines(l) == Some(m)) by {
        assert((ManifestView {
            package: m.package,
            dependencies: m.dependencies,
            dev_dependencies: m.dev_dependencies,
        }) =~= m);
    }
}

/// The round trip at the level of the two executable functions: whatever
/// text `to_text` wrote for a manifest, `from_text` on it answers a
/// manifest with exactly the same fields.
pub proof fn lemma_save_load_round_trip(m: Manifest, text: String, r: Option<Manifest>)
    requires
        m.wf(),
        manifest_text_safe(m@),
        text@ == render_manifest(m@),
        match r {
            Some(m2) => parse_manifest(text@) == Some(m2@),
            None => parse_manifest(text@) is None,
        },
    ensures
        r matches Some(m2) && m2@ == m@,
{
    lemma_manifest_round_trip(m@);
}

// ---------------------------------------------------------------------
// The executable renderer: builds the text a manifest renders to.
// ---------------------------------------------------------------------

/// `items_text` grows at the back: appending one more item appends its
/// quoted form, after a separator when items came before it.
proof fn lemma_items_text_snoc(s: Seq<Seq<char>>, x: Seq<char>)
    ensures
        items_text(s.push(x)) == if s.len() == 0 {
            quoted(x)
        } else {
            items_text(s) + seq![',', ' '] + quoted(x)
        },
    decreases s.len(),
{
    reveal_with_fuel(items_text, 3);
    let sx = s.push(x);
    if s.len() == 0 {
        assert(sx.len() == 1);
        assert(sx[0] == x);
        assert(items_text(sx) =~= quoted(x));
    } else {
        let s2 = s.subrange(1, s.len() as int);
        assert(sx.subrange(1, sx.len() as int) =~= s2.push(x));
        assert(sx[0] == s[0]);
        lemma_items_text_snoc(s2, x);
        if s.len() == 1 {
            assert(s2.len() == 0);
            assert(items_text(sx) =~= items_text(s) + seq![',', ' '] + quoted(x));
        } else {
            assert(items_text(sx) =~= items_text(s) + seq![',', ' '] + quoted(x));
        }
    }
}

/// `render_deps_lines` grows at the back, one section at a time.
proof fn lemma_render_deps_snoc(s: Seq<(Seq<char>, DepView)>, e: (Seq<char>, DepView), dev: bool)
    ensures
        render_deps_lines(s.push(e), dev) == render_deps_lines(s, dev) + render_dep_lines(
            e.0,
            e.1,
            dev,
        ),
    decreases s.len(),
{
    reveal_with_fuel(render_deps_lines, 3);
    let sx = s.push(e);
    if s.len() == 0 {
        assert(sx[0] == e);
        assert(sx.subrange(1, sx.len() as int) =~= Seq::<(Seq<char>, DepView)>::empty());
        assert(render_deps_lines(sx, dev) =~= render_dep_lines(e.0, e.1, dev));
        assert(render_deps_lines(s, dev) + render_dep_lines(e.0, e.1, dev) =~= render_dep_lines(
            e.0,
            e.1,
            dev,
        ));
    } else {
        let s2 = s.subrange(1, s.len() as int);
        assert(sx.subrange(1, sx.len() as int) =~= s2.push(e));
        assert(sx[0] == s[0]);
        lemma_render_deps_snoc(s2, e, dev);
        assert(render_deps_lines(sx, dev) =~= render_deps_lines(s, dev) + render_dep_lines(
            e.0,
            e.1,
            dev,
        ));
    }
}

/// Appends ` = "` , the value, `"`, and the line end.
fn push_qkv(out: &mut String, k: &str, v: &str)
    ensures
        final(out)@ == old(out)@ + qkv(k@, v@) + seq!['\n'],
{
    out.append(k);
    out.append(" = ");
    crate::strutil::push_char(out, '"');
    out.append(v);
    crate::strutil::push_char(out, '"');
    crate::strutil::push_char(out, '\n');
    proof {
        reveal_strlit(" = ");
        assert(" = "@ =~= kv_sep());
        assert(out@ =~= old(out)@ + qkv(k@, v@) + seq!['\n']);
    }
}

/// Appends a boolean binding line.
fn push_bkv(out: &mut String, k: &str, b: bool)
    ensures
        final(out)@ == old(out)@ + bkv(k@, b) + seq!['\n'],
{
    out.append(k);
    out.append(" = ");
    if b {
        out.append("true");
    } else {
        out.append("false");
    }
    crate::strutil::push_char(out, '\n');
    proof {
        reveal_strlit(" = ");
        assert(" = "@ =~= kv_sep());
        assert(out@ =~= old(out)@ + bkv(k@, b) + seq!['\n']);
    }
}

/// Appends a list binding line.
fn push_lkv(out: &mut String, k: &str, vs: &Vec<String>)
    ensures
        final(out)@ == old(out)@ + lkv(k@, vs.deep_view()) + seq!['\n'],
{
    out.append(k);
    out.append(" = ");
    crate::strutil::push_char(out, '[');
    let ghost base = out@;
    let mut i: usize = 0;
    let n = vs.len();
    while i < n
        invariant
            i <= n,
            n == vs@.len(),
            out@ == base + items_text(vs.deep_view().take(i as int)),
        decreases n - i,
    {
        if i > 0 {
            out.append(", ");
        }
        crate::strutil::push_char(out, '"');
        out.append(vs[i].as_str());
        crate::strutil::push_char(out, '"');
        proof {
            reveal_strlit(", ");
            let t = vs.deep_view().take(i as int + 1);
            assert(t.drop_last() =~= vs.deep_view().take(i as int));
            assert(t =~= vs.deep_view().take(i as int).push(vs.deep_view()[i as int]));
            lemma_items_text_snoc(vs.deep_view().take(i as int), vs.deep_view()[i as int]);
            assert(vs.deep_view()[i as int] == vs@[i as int]@);
            assert(out@ =~= base + items_text(t));
        }
        i = i + 1;
    }
    crate::strutil::push_char(out, ']');
    crate::strutil::push_char(out, '\n');
    proof {
        reveal_strlit(" = ");
        assert(" = "@ =~= kv_sep());
        assert(vs.deep_view().take(n as int) =~= vs.deep_view());
        assert(out@ =~= old(out)@ + lkv(k@, vs.deep_view()) + seq!['\n']);
    }
}

/// Appends a dependency section header line.
fn push_dep_header(out: &mut String, name: &str, dev: bool)
    ensures
        final(out)@ == old(out)@ + dep_header(name@, dev) + seq!['\n'],
{
    crate::strutil::push_char(out, '[');
    if dev {
        out.append("dev_dependencies.");
    } else {
        out.append("dependencies.");
    }
    out.append(name);
    crate::strutil::push_char(out, ']');
    crate::strutil::push_char(out, '\n');
    proof {
        assert(out@ =~= old(out)@ + dep_header(name@, dev) + seq!['\n']);
    }
}

/// Text of a single line.
proof fn lemma_unlines_one(l: Seq<char>)
    ensures
        unlines(seq![l]) == l + seq!['\n'],
{
    reveal_with_fuel(unlines, 2);
    assert(seq![l].subrange(1, 1) =~= Seq::<Seq<char>>::empty());
    assert(unlines(seq![l]) =~= l + seq!['\n']);
}

/// Text of an optional field's line, or nothing.
proof fn lemma_unlines_opt(k: Seq<char>, o: Option<Seq<char>>)
    ensures
        unlines(opt_line(k, o)) == match o {
            Some(v) => qkv(k, v) + seq!['\n'],
            None => Seq::<char>::empty(),
        },
{
    match o {
        Some(v) => lemma_unlines_one(qkv(k, v)),
        None => {},
    }
}

/// Appends one dependency's whole section.
#[verifier::rlimit(80)]
fn push_dep(out: &mut String, name: &str, d: &Dependency, dev: bool)
    ensures
        final(out)@ == old(out)@ + unlines(render_dep_lines(name@, d@, dev)),
{
    let ghost lines = render_dep_lines(name@, d@, dev);
    let ghost hd = dep_header(name@, dev);
    let ghost body = render_dep_body_lines(d@);
    proof {
        lemma_unlines_append(seq![hd], body);
        lemma_unlines_one(hd);
        assert(lines == seq![hd] + body);
    }
    push_dep_header(out, name, dev);
    match d {
        Dependency::Version(v) => {
            push_qkv(out, "version", v.as_str());
            proof {
                lemma_unlines_one(qkv("version"@, v@));
                assert(out@ =~= old(out)@ + unlines(lines));
            }
        },
        Dependency::Detailed { version, optional, features } => {
            push_qkv(out, "version", version.as_str());
            push_bkv(out, "optional", *optional);
            push_lkv(out, "features", features);
            proof {
                lemma_unlines_line_by_line(body);
                assert(out@ =~= old(out)@ + unlines(lines));
            }
        },
        Dependency::Git { git, branch, tag, rev } => {
            push_qkv(out, "git", git.as_str());
            match branch {
                Some(v) => push_qkv(out, "branch", v.as_str()),
                None => {},
            }
            match tag {
                Some(v) => push_qkv(out, "tag", v.as_str()),
                None => {},
            }
            match rev {
                Some(v) => push_qkv(out, "rev", v.as_str()),
                None => {},
            }
            proof {
                let gl = qkv("git"@, git@);
                let ob = opt_line("branch"@, branch.deep_view());
                let ot = opt_line("tag"@, tag.deep_view());
                let orv = opt_line("rev"@, rev.deep_view());
                assert(body == seq![gl] + ob + ot + orv);
                lemma_unlines_append(seq![gl] + ob + ot, orv);
                lemma_unlines_append(seq![gl] + ob, ot);
                lemma_unlines_append(seq![gl], ob);
                lemma_unlines_one(gl);
                lemma_unlines_opt("branch"@, branch.deep_view());
                lemma_unlines_opt("tag"@, tag.deep_view());
                lemma_unlines_opt("rev"@, rev.deep_view());
                assert(out@ =~= old(out)@ + unlines(lines));
            }
        },
        Dependency::Path { path } => {
            push_qkv(out, "path", path.as_str());
            proof {
                lemma_unlines_one(qkv("path"@, path@));
                assert(out@ =~= old(out)@ + unlines(lines));
            }
        },
    }
}

/// Joined text is each line followed by its newline, in order.
proof fn lemma_unlines_line_by_line(ls: Seq<Seq<char>>)
    ensures
        ls.len() == 1 ==> unlines(ls) == ls[0] + seq!['\n'],
        ls.len() == 2 ==> unlines(ls) == ls[0] + seq!['\n'] + ls[1] + seq!['\n'],
        ls.len() == 3 ==> unlines(ls) == ls[0] + seq!['\n'] + ls[1] + seq!['\n'] + ls[2] + seq![
            '\n',
        ],
        ls.len() == 4 ==> unlines(ls) == ls[0] + seq!['\n'] + ls[1] + seq!['\n'] + ls[2] + seq![
            '\n',
        ] + ls[3] + seq!['\n'],
{
    reveal_with_fuel(unlines, 6);
    if 1 <= ls.len() <= 4 {
        let t1 = ls.subrange(1, ls.len() as int);
        if ls.len() >= 2 {
            assert(t1[0] == ls[1]);
            let t2 = t1.subrange(1, t1.len() as int);
            assert(t2 =~= ls.subrange(2, ls.len() as int));
            if ls.len() >= 3 {
                assert(t2[0] == ls[2]);
                let t3 = t2.subrange(1, t2.len() as int);
                assert(t3 =~= ls.subrange(3, ls.len() as int));
                if ls.len() == 4 {
                    assert(t3[0] == ls[3]);
                    let t4 = t3.subrange(1, t3.len() as int);
                    assert(t4.len() == 0);
                }
            }
        }
        if ls.len() == 1 {
            assert(unlines(ls) =~= ls[0] + seq!['\n']);
        } else if ls.len() == 2 {
            assert(unlines(ls) =~= ls[0] + seq!['\n'] + ls[1] + seq!['\n']);
        } else if ls.len() == 3 {
            assert(unlines(ls) =~= ls[0] + seq!['\n'] + ls[1] + seq!['\n'] + ls[2] + seq!['\n']);
        } else {
            assert(unlines(ls) =~= ls[0] + seq!['\n'] + ls[1] + seq!['\n'] + ls[2] + seq!['\n']
                + ls[3] + seq!['\n']);
        }
    }
}

/// Appends the package header and the required identity lines.
fn push_pkg_head(out: &mut String, p: &crate::manifest::Package)
    ensures
        final(out)@ == old(out)@ + unlines(
            seq![
                package_header(),
                qkv("name"@, p@.name),
                qkv("version"@, p@.version),
                lkv("authors"@, p@.authors),
            ],
        ),
{
    proof {
        lemma_unlines_line_by_line(
            seq![
                package_header(),
                qkv("name"@, p@.name),
                qkv("version"@, p@.version),
                lkv("authors"@, p@.authors),
            ],
        );
    }
    crate::strutil::push_char(out, '[');
    out.append("package");
    crate::strutil::push_char(out, ']');
    crate::strutil::push_char(out, '\n');
    push_qkv(out, "name", p.name.as_str());
    push_qkv(out, "version", p.version.as_str());
    push_lkv(out, "authors", &p.authors);
    proof {
        assert(out@ =~= old(out)@ + unlines(
            seq![
                package_header(),
                qkv("name"@, p@.name),
                qkv("version"@, p@.version),
                lkv("authors"@, p@.authors),
            ],
        ));
    }
}

/// Appends the optional descriptive lines.
fn push_pkg_opts(out: &mut String, p: &crate::manifest::Package)
    ensures
        final(out)@ == old(out)@ + unlines(
            opt_line("description"@, p@.description) + opt_line("license"@, p@.license) + opt_line(
                "repository"@,
                p@.repository,
            ),
        ),
{
    proof {
        lemma_unlines_append(
            opt_line("description"@, p@.description) + opt_line("license"@, p@.license),
            opt_line("repository"@, p@.repository),
        );
        lemma_unlines_append(
            opt_line("description"@, p@.description),
            opt_line("license"@, p@.license),
        );
        lemma_unlines_opt("description"@, p@.description);
        lemma_unlines_opt("license"@, p@.license);
        lemma_unlines_opt("repository"@, p@.repository);
    }
    match &p.description {
        Some(v) => push_qkv(out, "description", v.as_str()),
        None => {},
    }
    match &p.license {
        Some(v) => push_qkv(out, "license", v.as_str()),
        None => {},
    }
    match &p.repository {
        Some(v) => push_qkv(out, "repository", v.as_str()),
        None => {},
    }
    proof {
        assert(out@ =~= old(out)@ + unlines(
            opt_line("description"@, p@.description) + opt_line("license"@, p@.license) + opt_line(
                "repository"@,
                p@.repository,
            ),
        ));
    }
}

/// Appends the kind line and the optional entry line.
fn push_pkg_end(out: &mut String, p: &crate::manifest::Package)
    ensures
        final(out)@ == old(out)@ + unlines(
            seq![qkv("type"@, type_text(p@.package_type))] + opt_line("entry"@, p@.entry),
        ),
{
    proof {
        lemma_unlines_append(
            seq![qkv("type"@, type_text(p@.package_type))],
            opt_line("entry"@, p@.entry),
        );
        lemma_unlines_one(qkv("type"@, type_text(p@.package_type)));
        lemma_unlines_opt("entry"@, p@.entry);
    }
    match p.package_type {
        PackageType::Bin => push_qkv(out, "type", "bin"),
        PackageType::Lib => push_qkv(out, "type", "lib"),
        PackageType::Native => push_qkv(out, "type", "native"),
    }
    match &p.entry {
        Some(v) => push_qkv(out, "entry", v.as_str()),
        None => {},
    }
    proof {
        assert(out@ =~= old(out)@ + unlines(
            seq![qkv("type"@, type_text(p@.package_type))] + opt_line("entry"@, p@.entry),
        ));
    }
}

/// Appends the package section.
#[verifier::rlimit(60)]
fn push_pkg(out: &mut String, p: &crate::manifest::Package)
    ensures
        final(out)@ == old(out)@ + unlines(render_pkg_lines(p@)),
{
    let ghost s4 = seq![
        package_header(),
        qkv("name"@, p@.name),
        qkv("version"@, p@.version),
        lkv("authors"@, p@.authors),
    ];
    let ghost o1 = opt_line("description"@, p@.description);
    let ghost o2 = opt_line("license"@, p@.license);
    let ghost o3 = opt_line("repository"@, p@.repository);
    let ghost st = seq![qkv("type"@, type_text(p@.package_type))];
    let ghost o4 = opt_line("entry"@, p@.entry);
    proof {
        assert(render_pkg_lines(p@) == s4 + o1 + o2 + o3 + st + o4);
        lemma_unlines_append(s4 + o1 + o2 + o3 + st, o4);
        lemma_unlines_append(s4 + o1 + o2 + o3, st);
        lemma_unlines_append(s4 + o1 + o2, o3);
        lemma_unlines_append(s4 + o1, o2);
        lemma_unlines_append(s4, o1);
        lemma_unlines_append(o1 + o2, o3);
        lemma_unlines_append(o1, o2);
        lemma_unlines_append(st, o4);
    }
    push_pkg_head(out, p);
    push_pkg_opts(out, p);
    push_pkg_end(out, p);
    proof {
        assert(out@ =~= old(out)@ + unlines(render_pkg_lines(p@)));
    }
}

/// Appends every section of one dependency list, in declaration order.
fn push_deps(out: &mut String, entries: &Vec<(String, Dependency)>, dev: bool)
    ensures
        final(out)@ == old(out)@ + unlines(render_deps_lines(entries.deep_view(), dev)),
{
    let mut i: usize = 0;
    let n = entries.len();
    while i < n
        invariant
            i <= n,
            n == entries@.len(),
            out@ == old(out)@ + unlines(render_deps_lines(entries.deep_view().take(i as int), dev)),
        decreases n - i,
    {
        let (name, dep) = &entries[i];
        proof {
            assert(entries.deep_view()[i as int] == (name@, dep@));
        }
        push_dep(out, name.as_str(), dep, dev);
        proof {
            let dv = entries.deep_view();
            assert(dv.take(i as int + 1) =~= dv.take(i as int).push(dv[i as int]));
            lemma_render_deps_snoc(dv.take(i as int), dv[i as int], dev);
            lemma_unlines_append(
                render_deps_lines(dv.take(i as int), dev),
                render_dep_lines(dv[i as int].0, dv[i as int].1, dev),
            );
            assert(out@ =~= old(out)@ + unlines(render_deps_lines(dv.take(i as int + 1), dev)));
        }
        i = i + 1;
    }
    proof {
        assert(entries.deep_view().take(n as int) =~= entries.deep_view());
    }
}

impl Manifest {
    /// The manifest's on-disk text.
    pub fn to_text(&self) -> (r: String)
        ensures
            r@ == render_manifest(self@),
    {
        let mut out = String::new();
        push_pkg(&mut out, &self.package);
        push_deps(&mut out, &self.dependencies, false);
        push_deps(&mut out, &self.dev_dependencies, true);
        proof {
            let a = render_pkg_lines(self@.package);
            let b = render_deps_lines(self@.dependencies, false);
            let c = render_deps_lines(self@.dev_dependencies, true);
            lemma_unlines_append(a + b, c);
            lemma_unlines_append(a, b);
            assert(render_manifest_lines(self@) == a + b + c);
            assert(out@ =~= render_manifest(self@));
        }
        out
    }
}

// ---------------------------------------------------------------------
// The executable parser: turns text into lines, lines into their shapes,
// and the shapes into a manifest, each step against its specification.
// ---------------------------------------------------------------------

/// A scan that passed `k` characters without finding `c` pins `find_char`.
proof fn lemma_find_char_pin(s: Seq<char>, c: char, k: int)
    requires
        0 <= k <= s.len(),
        forall|j: int| 0 <= j < k ==> s[j] != c,
        k < s.len() ==> s[k] == c,
    ensures
        find_char(s, c) == k,
{
    lemma_find_char(s, c);
    let f = find_char(s, c);
    if f < k {
        assert(s[f] == c);
    }
    if f > k {
        assert(k < s.len());
        assert(s[k] != c);
    }
}

/// The characters of a text, one by one.
fn text_chars(s: &str) -> (r: Vec<char>)
    ensures
        r@ == s@,
{
    let n = s.unicode_len();
    let mut r: Vec<char> = Vec::new();
    let mut i: usize = 0;
    while i < n
        invariant
            i <= n,
            n == s@.len(),
            r@ =~= s@.take(i as int),
        decreases n - i,
    {
        r.push(s.get_char(i));
        proof {
            assert(r@ =~= s@.take(i as int + 1));
        }
        i = i + 1;
    }
    proof {
        assert(r@ =~= s@);
    }
    r
}

/// One region of a character list, as an owned string.
fn subvec_string(cs: &Vec<char>, from: usize, to: usize) -> (r: String)
    requires
        from <= to <= cs@.len(),
    ensures
        r@ == cs@.subrange(from as int, to as int),
{
    let mut r = String::new();
    let mut i: usize = from;
    while i < to
        invariant
            from <= i <= to,
            to <= cs@.len(),
            r@ =~= cs@.subrange(from as int, i as int),
        decreases to - i,
    {
        crate::strutil::push_char(&mut r, cs[i]);
        proof {
            assert(r@ =~= cs@.subrange(from as int, i as int + 1));
        }
        i = i + 1;
    }
    r
}

/// Whether one region of a character list equals the given text.
fn eq_str_range(cs: &Vec<char>, from: usize, to: usize, pat: &str) -> (r: bool)
    requires
        from <= to <= cs@.len(),
    ensures
        r == (cs@.subrange(from as int, to as int) == pat@),
{
    let n = pat.unicode_len();
    if to - from != n {
        proof {
            assert(cs@.subrange(from as int, to as int).len() != pat@.len());
        }
        return false;
    }
    let mut i: usize = 0;
    while i < n
        invariant
            i <= n,
            n == pat@.len(),
            n == to - from,
            from <= to <= cs@.len(),
            forall|j: int| 0 <= j < i ==> cs@.subrange(from as int, to as int)[j] == pat@[j],
        decreases n - i,
    {
        let a = cs[from + i];
        let b = pat.get_char(i);
        if a != b {
            proof {
                assert(cs@.subrange(from as int, to as int)[i as int] != pat@[i as int]);
            }
            return false;
        }
        proof {
            assert(cs@.subrange(from as int, to as int)[i as int] == pat@[i as int]);
        }
        i = i + 1;
    }
    proof {
        assert(cs@.subrange(from as int, to as int) =~= pat@);
    }
    true
}

/// The lines of a text, split at newlines.
fn split_lines(cs: &Vec<char>) -> (r: Vec<Vec<char>>)
    ensures
        r.deep_view() == lines_of(cs@),
{
    let n = cs.len();
    let mut done: Vec<Vec<char>> = Vec::new();
    let mut p: usize = 0;
    proof {
        assert(cs@.skip(0) =~= cs@);
        assert(done.deep_view() =~~= Seq::<Seq<char>>::empty());
    }
    while p < n
        invariant
            p <= n,
            n == cs@.len(),
            lines_of(cs@) =~~= done.deep_view() + lines_of(cs@.skip(p as int)),
        decreases n - p,
    {
        let ghost suffix = cs@.skip(p as int);
        // scan for the next newline
        let mut j: usize = p;
        while j < n
            invariant_except_break
                p <= j <= n,
                n == cs@.len(),
                forall|x: int| p <= x < j ==> cs@[x] != '\n',
            ensures
                p <= j <= n,
                n == cs@.len(),
                forall|x: int| p <= x < j ==> cs@[x] != '\n',
                j < n ==> cs@[j as int] == '\n',
            decreases n - j,
        {
            if cs[j] == '\n' {
                break ;
            }
            j = j + 1;
        }
        proof {
            assert forall|x: int| 0 <= x < suffix.len() implies suffix[x] == cs@[p + x] by {}
            lemma_find_char_pin(suffix, '\n', j - p);
        }
        let line = {
            let mut line: Vec<char> = Vec::new();
            let mut x: usize = p;
            while x < j
                invariant
                    p <= x <= j,
                    j <= cs@.len(),
                    line@ =~= cs@.subrange(p as int, x as int),
                decreases j - x,
            {
                line.push(cs[x]);
                proof {
                    assert(line@ =~= cs@.subrange(p as int, x as int + 1));
                }
                x = x + 1;
            }
            line
        };
        proof {
            assert(line@ =~= cs@.subrange(p as int, j as int));
        }
        let ghost old_done = done.deep_view();
        done.push(line);
        proof {
            assert(done.deep_view() =~~= old_done.push(line@));
        }
        if j < n {
            proof {
                assert(suffix.subrange(0, j - p) =~= cs@.subrange(p as int, j as int));
                assert(suffix.subrange(j - p + 1, suffix.len() as int) =~= cs@.skip(j as int + 1));
                assert(lines_of(suffix) =~~= seq![line@] + lines_of(cs@.skip(j as int + 1)));
                assert(lines_of(cs@) =~~= done.deep_view() + lines_of(cs@.skip(j as int + 1)));
            }
            p = j + 1;
        } else {
            proof {
                assert(suffix.len() > 0);
                assert(find_char(suffix, '\n') == suffix.len());
                assert(suffix =~= cs@.subrange(p as int, j as int));
                assert(lines_of(suffix) =~~= seq![line@]);
                assert(cs@.skip(n as int).len() == 0);
                assert(lines_of(cs@) =~~= done.deep_view() + lines_of(cs@.skip(n as int)));
            }
            p = n;
        }
    }
    proof {
        assert(cs@.skip(n as int).len() == 0);
        assert(lines_of(cs@) =~~= done.deep_view());
    }
    done
}

/// Shape of one parsed line, as executable values.
#[derive(Debug, Clone, PartialEq, Eq)]
pub enum LineKind {
    Empty,
    HeadPackage,
    HeadDep(String),
    HeadDev(String),
    ValStr(String, String),
    ValBool(String, bool),
    ValList(String, Vec<String>),
    Bad,
}

impl View for LineKind {
    type V = LineView;

    open spec fn view(&self) -> LineView {
        match self {
            LineKind::Empty => LineView::Empty,
            LineKind::HeadPackage => LineView::HeadPackage,
            LineKind::HeadDep(n) => LineView::HeadDep(n@),
            LineKind::HeadDev(n) => LineView::HeadDev(n@),
            LineKind::ValStr(k, v) => LineView::ValStr(k@, v@),
            LineKind::ValBool(k, b) => LineView::ValBool(k@, *b),
            LineKind::ValList(k, vs) => LineView::ValList(k@, vs.deep_view()),
            LineKind::Bad => LineView::Bad,
        }
    }
}

/// The items of a bracketed list region, against `parse_items`.
fn parse_items_ex(l: &Vec<char>, from: usize, to: usize) -> (r: Option<Vec<String>>)
    requires
        from <= to <= l@.len(),
    ensures
        match r {
            Some(vs) => parse_items(l@.subrange(from as int, to as int)) == Some(vs.deep_view()),
            None => parse_items(l@.subrange(from as int, to as int)) is None,
        },
    decreases to - from,
{
    let ghost s = l@.subrange(from as int, to as int);
    if from == to {
        let r: Vec<String> = Vec::new();
        proof {
            assert(r.deep_view() =~~= Seq::<Seq<char>>::empty());
        }
        return Some(r);
    }
    if l[from] != '"' {
        return None;
    }
    // scan for the closing quote
    let mut j: usize = from + 1;
    while j < to
        invariant_except_break
            from + 1 <= j <= to,
            to <= l@.len(),
            forall|x: int| from + 1 <= x < j ==> l@[x] != '"',
        ensures
            from + 1 <= j <= to,
            to <= l@.len(),
            forall|x: int| from + 1 <= x < j ==> l@[x] != '"',
            j < to ==> l@[j as int] == '"',
        decreases to - j,
    {
        if l[j] == '"' {
            break ;
        }
        j = j + 1;
    }
    proof {
        let t = s.subrange(1, s.len() as int);
        assert forall|x: int| 0 <= x < t.len() implies t[x] == l@[from + 1 + x] by {}
        lemma_find_char_pin(t, '"', j - from - 1);
        assert(1 + find_char(t, '"') == j - from);
    }
    if j == to {
        // no closing quote
        return None;
    }
    let item = subvec_string(l, from + 1, j);
    proof {
        assert(s.subrange(1, j - from) =~= l@.subrange(from as int + 1, j as int));
    }
    if j == to - 1 {
        let mut r: Vec<String> = Vec::new();
        r.push(item);
        proof {
            assert(r.deep_view() =~~= seq![s.subrange(1, j - from)]);
        }
        return Some(r);
    }
    if to - j >= 3 && l[j + 1] == ',' && l[j + 2] == ' ' {
        proof {
            assert(s[j - from + 1] == l@[j as int + 1]);
            assert(s[j - from + 2] == l@[j as int + 2]);
            assert(s.subrange(j - from + 3, s.len() as int) =~= l@.subrange(
                j as int + 3,
                to as int,
            ));
        }
        match parse_items_ex(l, j + 3, to) {
            Some(mut rest) => {
                let ghost rest0 = rest.deep_view();
                let mut r: Vec<String> = Vec::new();
                r.push(item);
                r.append(&mut rest);
                proof {
                    assert(r.deep_view() =~~= seq![s.subrange(1, j - from)] + rest0);
                }
                Some(r)
            },
            None => None,
        }
    } else {
        proof {
            if j - from + 3 <= s.len() {
                assert(s[j - from + 1] == l@[j as int + 1]);
                assert(s[j - from + 2] == l@[j as int + 2]);
            }
        }
        None
    }
}

/// What one line means, as executable values.
#[verifier::rlimit(60)]
fn classify_line(l: &Vec<char>) -> (r: LineKind)
    ensures
        r@ == parse_line(l@),
{
    let n = l.len();
    if n == 0 {
        return LineKind::Empty;
    }
    if l[0] == '[' {
        if n >= 2 && l[n - 1] == ']' {
            let ghost mid = l@.subrange(1, l@.len() - 1);
            if eq_str_range(l, 1, n - 1, "package") {
                return LineKind::HeadPackage;
            }
            proof {
                reveal_strlit("dependencies.");
                reveal_strlit("dev_dependencies.");
            }
            if n - 1 >= 14 && eq_str_range(l, 1, 14, "dependencies.") {
                let name = subvec_string(l, 14, n - 1);
                proof {
                    assert(mid.subrange(0, 13) =~= l@.subrange(1, 14));
                    assert(prefix_of(mid, "dependencies."@));
                    assert(mid.subrange(13, mid.len() as int) =~= l@.subrange(
                        14,
                        l@.len() - 1,
                    ));
                }
                return LineKind::HeadDep(name);
            }
            if n - 1 >= 18 && eq_str_range(l, 1, 18, "dev_dependencies.") {
                let name = subvec_string(l, 18, n - 1);
                proof {
                    assert(!prefix_of(mid, "dependencies."@)) by {
                        if prefix_of(mid, "dependencies."@) {
                            assert(mid.subrange(0, 13)[2] == mid[2]);
                            assert(l@.subrange(1, 18)[2] == mid[2]);
                        }
                    }
                    assert(mid.subrange(0, 17) =~= l@.subrange(1, 18));
                    assert(prefix_of(mid, "dev_dependencies."@));
                    assert(mid.subrange(17, mid.len() as int) =~= l@.subrange(
                        18,
                        l@.len() - 1,
                    ));
                }
                return LineKind::HeadDev(name);
            }
            proof {
                assert(!prefix_of(mid, "dependencies."@)) by {
                    if prefix_of(mid, "dependencies."@) {
                        if n - 1 >= 14 {
                            assert(mid.subrange(0, 13) =~= l@.subrange(1, 14));
                        }
                    }
                }
                assert(!prefix_of(mid, "dev_dependencies."@)) by {
                    if prefix_of(mid, "dev_dependencies."@) {
                        if n - 1 >= 18 {
                            assert(mid.subrange(0, 17) =~= l@.subrange(1, 18));
                        }
                    }
                }
            }
            return LineKind::Bad;
        }
        return LineKind::Bad;
    }
    // a binding line: scan for the first space
    let mut k: usize = 0;
    while k < n
        invariant_except_break
            k <= n,
            n == l@.len(),
            forall|x: int| 0 <= x < k ==> l@[x] != ' ',
        ensures
            k <= n,
            n == l@.len(),
            forall|x: int| 0 <= x < k ==> l@[x] != ' ',
            k < n ==> l@[k as int] == ' ',
        decreases n - k,
    {
        if l[k] == ' ' {
            break ;
        }
        k = k + 1;
    }
    proof {
        lemma_find_char_pin(l@, ' ', k as int);
    }
    if !(k < n && n - k >= 3 && l[k + 1] == '=' && l[k + 2] == ' ') {
        proof {
            if k as int + 3 <= l@.len() && l@.subrange(k as int, k as int + 3) == kv_sep() {
                assert(l@.subrange(k as int, k as int + 3)[1] == l@[k as int + 1]);
                assert(l@.subrange(k as int, k as int + 3)[2] == l@[k as int + 2]);
                assert(kv_sep()[1] == '=' && kv_sep()[2] == ' ');
            }
        }
        return LineKind::Bad;
    }
    proof {
        assert(l@.subrange(k as int, k as int + 3) =~= kv_sep());
    }
    let key = subvec_string(l, 0, k);
    let ghost vt = l@.subrange(k as int + 3, l@.len() as int);
    let vstart = k + 3;
    if eq_str_range(l, vstart, n, "true") {
        return LineKind::ValBool(key, true);
    }
    if eq_str_range(l, vstart, n, "false") {
        return LineKind::ValBool(key, false);
    }
    if n - vstart >= 2 && l[vstart] == '"' && l[n - 1] == '"' {
        let v = subvec_string(l, vstart + 1, n - 1);
        proof {
            assert(vt[0] == l@[vstart as int]);
            assert(vt.last() == l@[l@.len() - 1]);
            assert(vt.subrange(1, vt.len() - 1) =~= l@.subrange(
                vstart as int + 1,
                l@.len() - 1,
            ));
        }
        return LineKind::ValStr(key, v);
    }
    if n - vstart >= 2 && l[vstart] == '[' && l[n - 1] == ']' {
        proof {
            assert(vt[0] == l@[vstart as int]);
            assert(vt.last() == l@[l@.len() - 1]);
            assert(vt.subrange(1, vt.len() - 1) =~= l@.subrange(
                vstart as int + 1,
                l@.len() - 1,
            ));
        }
        match parse_items_ex(l, vstart + 1, n - 1) {
            Some(vs) => {
                return LineKind::ValList(key, vs);
            },
            None => {
                return LineKind::Bad;
            },
        }
    }
    proof {
        if vt.len() >= 2 {
            assert(vt[0] == l@[vstart as int]);
            assert(vt.last() == l@[l@.len() - 1]);
        }
    }
    LineKind::Bad
}

/// An optional quoted-string field, against `opt_str_at`.
fn opt_str_ex(lines: &Vec<Vec<char>>, i: usize, key: &str) -> (r: (Option<String>, usize))
    requires
        i <= lines@.len(),
    ensures
        r.0.deep_view() == opt_str_at(lines.deep_view(), i as int, key@).0,
        r.1 == opt_str_at(lines.deep_view(), i as int, key@).1,
        i <= r.1 <= lines@.len(),
{
    if i < lines.len() {
        proof {
            assert(lines.deep_view()[i as int] == lines@[i as int].deep_view());
            assert(lines@[i as int].deep_view() =~= lines@[i as int]@);
        }
        match classify_line(&lines[i]) {
            LineKind::ValStr(k, v) => {
                if crate::manifest::str_eq_string(key, &k) {
                    (Some(v), i + 1)
                } else {
                    (None, i)
                }
            },
            _ => (None, i),
        }
    } else {
        (None, i)
    }
}

/// A required quoted-string field, against `req_str_at`.
fn req_str_ex(lines: &Vec<Vec<char>>, i: usize, key: &str) -> (r: Option<(String, usize)>)
    requires
        i <= lines@.len(),
    ensures
        match r {
            Some((v, i2)) => req_str_at(lines.deep_view(), i as int, key@) == Some(
                (v@, i2 as int),
            ) && i < i2 <= lines@.len(),
            None => req_str_at(lines.deep_view(), i as int, key@) is None,
        },
{
    if i < lines.len() {
        proof {
            assert(lines.deep_view()[i as int] == lines@[i as int].deep_view());
            assert(lines@[i as int].deep_view() =~= lines@[i as int]@);
        }
        match classify_line(&lines[i]) {
            LineKind::ValStr(k, v) => {
                if crate::manifest::str_eq_string(key, &k) {
                    Some((v, i + 1))
                } else {
                    None
                }
            },
            _ => None,
        }
    } else {
        None
    }
}

/// An optional boolean field, against `opt_bool_at`.
fn opt_bool_ex(lines: &Vec<Vec<char>>, i: usize, key: &str) -> (r: (Option<bool>, usize))
    requires
        i <= lines@.len(),
    ensures
        r.0 == opt_bool_at(lines.deep_view(), i as int, key@).0,
        r.1 == opt_bool_at(lines.deep_view(), i as int, key@).1,
        i <= r.1 <= lines@.len(),
{
    if i < lines.len() {
        proof {
            assert(lines.deep_view()[i as int] == lines@[i as int].deep_view());
            assert(lines@[i as int].deep_view() =~= lines@[i as int]@);
        }
        match classify_line(&lines[i]) {
            LineKind::ValBool(k, b) => {
                if crate::manifest::str_eq_string(key, &k) {
                    (Some(b), i + 1)
                } else {
                    (None, i)
                }
            },
            _ => (None, i),
        }
    } else {
        (None, i)
    }
}

/// An optional list field, against `opt_list_at`.
fn opt_list_ex(lines: &Vec<Vec<char>>, i: usize, key: &str) -> (r: (Option<Vec<String>>, usize))
    requires
        i <= lines@.len(),
    ensures
        match r.0 {
            Some(vs) => opt_list_at(lines.deep_view(), i as int, key@).0 == Some(vs.deep_view()),
            None => opt_list_at(lines.deep_view(), i as int, key@).0 is None,
        },
        r.1 == opt_list_at(lines.deep_view(), i as int, key@).1,
        i <= r.1 <= lines@.len(),
{
    if i < lines.len() {
        proof {
            assert(lines.deep_view()[i as int] == lines@[i as int].deep_view());
            assert(lines@[i as int].deep_view() =~= lines@[i as int]@);
        }
        match classify_line(&lines[i]) {
            LineKind::ValList(k, vs) => {
                if crate::manifest::str_eq_string(key, &k) {
                    (Some(vs), i + 1)
                } else {
                    (None, i)
                }
            },
            _ => (None, i),
        }
    } else {
        (None, i)
    }
}

/// A required list field, against `req_list_at`.
fn req_list_ex(lines: &Vec<Vec<char>>, i: usize, key: &str) -> (r: Option<(Vec<String>, usize)>)
    requires
        i <= lines@.len(),
    ensures
        match r {
            Some((vs, i2)) => req_list_at(lines.deep_view(), i as int, key@) == Some(
                (vs.deep_view(), i2 as int),
            ) && i < i2 <= lines@.len(),
            None => req_list_at(lines.deep_view(), i as int, key@) is None,
        },
{
    if i < lines.len() {
        proof {
            assert(lines.deep_view()[i as int] == lines@[i as int].deep_view());
            assert(lines@[i as int].deep_view() =~= lines@[i as int]@);
        }
        match classify_line(&lines[i]) {
            LineKind::ValList(k, vs) => {
                if crate::manifest::str_eq_string(key, &k) {
                    Some((vs, i + 1))
                } else {
                    None
                }
            },
            _ => None,
        }
    } else {
        None
    }
}

/// The package kind a text names, against `type_of_text`.
fn kind_of_text(s: &String) -> (r: Option<PackageType>)
    ensures
        r == type_of_text(s@),
{
    if crate::manifest::str_eq_string("bin", s) {
        Some(PackageType::Bin)
    } else if crate::manifest::str_eq_string("lib", s) {
        Some(PackageType::Lib)
    } else if crate::manifest::str_eq_string("native", s) {
        Some(PackageType::Native)
    } else {
        None
    }
}

/// The package section, against `parse_pkg_at`.
#[verifier::rlimit(60)]
fn parse_pkg_ex(lines: &Vec<Vec<char>>) -> (r: Option<(crate::manifest::Package, usize)>)
    ensures
        match r {
            Some((p, i)) => parse_pkg_at(lines.deep_view()) == Some((p@, i as int)) && i
                <= lines@.len(),
            None => parse_pkg_at(lines.deep_view()) is None,
        },
{
    if lines.len() == 0 {
        return None;
    }
    proof {
        assert(lines.deep_view()[0] == lines@[0].deep_view());
        assert(lines@[0].deep_view() =~= lines@[0]@);
    }
    match classify_line(&lines[0]) {
        LineKind::HeadPackage => {},
        _ => {
            return None;
        },
    }
    let (name, i1) = match req_str_ex(lines, 1, "name") {
        Some(x) => x,
        None => {
            return None;
        },
    };
    let (version, i2) = match req_str_ex(lines, i1, "version") {
        Some(x) => x,
        None => {
            return None;
        },
    };
    let (authors, i3) = match req_list_ex(lines, i2, "authors") {
        Some(x) => x,
        None => {
            return None;
        },
    };
    let (description, i4) = opt_str_ex(lines, i3, "description");
    let (license, i5) = opt_str_ex(lines, i4, "license");
    let (repository, i6) = opt_str_ex(lines, i5, "repository");
    let (ty, i7) = match req_str_ex(lines, i6, "type") {
        Some(x) => x,
        None => {
            return None;
        },
    };
    let package_type = match kind_of_text(&ty) {
        Some(t) => t,
        None => {
            return None;
        },
    };
    let (entry, i8) = opt_str_ex(lines, i7, "entry");
    let p = crate::manifest::Package {
        name,
        version,
        authors,
        description,
        license,
        repository,
        package_type,
        entry,
    };
    proof {
        assert(p@ =~~= parse_pkg_at(lines.deep_view()).unwrap().0);
    }
    Some((p, i8))
}

/// One dependency's fields, against `parse_dep_body_at`.
#[verifier::rlimit(60)]
fn parse_dep_body_ex(lines: &Vec<Vec<char>>, i: usize) -> (r: Option<(Dependency, usize)>)
    requires
        i <= lines@.len(),
    ensures
        match r {
            Some((d, i2)) => parse_dep_body_at(lines.deep_view(), i as int) == Some(
                (d@, i2 as int),
            ) && i < i2 <= lines@.len(),
            None => parse_dep_body_at(lines.deep_view(), i as int) is None,
        },
{
    match req_str_ex(lines, i, "path") {
        Some((path, i2)) => {
            return Some((Dependency::Path { path }, i2));
        },
        None => {},
    }
    match req_str_ex(lines, i, "git") {
        Some((git, i2)) => {
            let (branch, i3) = opt_str_ex(lines, i2, "branch");
            let (tag, i4) = opt_str_ex(lines, i3, "tag");
            let (rev, i5) = opt_str_ex(lines, i4, "rev");
            let d = Dependency::Git { git, branch, tag, rev };
            proof {
                assert(d@ =~~= parse_dep_body_at(lines.deep_view(), i as int).unwrap().0);
            }
            return Some((d, i5));
        },
        None => {},
    }
    match req_str_ex(lines, i, "version") {
        Some((version, i2)) => {
            let (optional, i3) = opt_bool_ex(lines, i2, "optional");
            let (features, i4) = opt_list_ex(lines, i3, "features");
            let none_given = match (&optional, &features) {
                (Option::None, Option::None) => true,
                _ => false,
            };
            if none_given {
                return Some((Dependency::Version(version), i4));
            }
            let d = Dependency::Detailed {
                version,
                optional: match optional {
                    Some(b) => b,
                    None => false,
                },
                features: match features {
                    Some(vs) => vs,
                    None => Vec::new(),
                },
            };
            proof {
                assert(d@ =~~= parse_dep_body_at(lines.deep_view(), i as int).unwrap().0);
            }
            return Some((d, i4));
        },
        None => {},
    }
    None
}

/// A run of dependency sections, against `parse_deps_at`.
fn parse_deps_ex(lines: &Vec<Vec<char>>, i: usize, dev: bool) -> (r: Option<
    (Vec<(String, Dependency)>, usize),
>)
    requires
        i <= lines@.len(),
    ensures
        match r {
            Some((es, i2)) => parse_deps_at(lines.deep_view(), i as int, dev) == Some(
                (es.deep_view(), i2 as int),
            ) && i <= i2 <= lines@.len(),
            None => parse_deps_at(lines.deep_view(), i as int, dev) is None,
        },
    decreases lines@.len() - i,
{
    if i >= lines.len() {
        let r: Vec<(String, Dependency)> = Vec::new();
        proof {
            assert(r.deep_view() =~~= Seq::<(Seq<char>, DepView)>::empty());
        }
        return Some((r, i));
    }
    proof {
        assert(lines.deep_view()[i as int] == lines@[i as int].deep_view());
        assert(lines@[i as int].deep_view() =~= lines@[i as int]@);
    }
    let (name, matched) = match classify_line(&lines[i]) {
        LineKind::HeadDep(n) => {
            if !dev {
                (n, true)
            } else {
                (n, false)
            }
        },
        LineKind::HeadDev(n) => {
            if dev {
                (n, true)
            } else {
                (n, false)
            }
        },
        _ => (String::new(), false),
    };
    if !matched {
        let r: Vec<(String, Dependency)> = Vec::new();
        proof {
            assert(r.deep_view() =~~= Seq::<(Seq<char>, DepView)>::empty());
        }
        return Some((r, i));
    }
    let (d, i2) = match parse_dep_body_ex(lines, i + 1) {
        Some(x) => x,
        None => {
            return None;
        },
    };
    let (mut rest, i3) = match parse_deps_ex(lines, i2, dev) {
        Some(x) => x,
        None => {
            return None;
        },
    };
    let ghost rest0 = rest.deep_view();
    let mut out: Vec<(String, Dependency)> = Vec::new();
    out.push((name, d));
    out.append(&mut rest);
    proof {
        assert(out.deep_view() =~~= parse_deps_at(lines.deep_view(), i as int, dev).unwrap().0);
    }
    Some((out, i3))
}

/// Whether no dependency name repeats, against `names_unique`.
fn names_unique_ex(entries: &Vec<(String, Dependency)>) -> (r: bool)
    ensures
        r == names_unique(entries.deep_view(),),
{
    let n = entries.len();
    let mut i: usize = 0;
    while i < n
        invariant
            i <= n,
            n == entries@.len(),
            forall|a: int, b: int|
                0 <= a < b < entries.deep_view().len() && a < i ==> (
                #[trigger] entries.deep_view()[a]).0 != (#[trigger] entries.deep_view()[b]).0,
        decreases n - i,
    {
        let mut j: usize = i + 1;
        while j < n
            invariant
                i < j <= n || (j == i + 1),
                j >= i + 1,
                i < n,
                n == entries@.len(),
                forall|b: int| (i as int) < b < j ==> entries.deep_view()[i as int].0 != (
                #[trigger] entries.deep_view()[b]).0,
            decreases n - j,
        {
            proof {
                assert(entries.deep_view()[i as int].0 == entries@[i as int].0@);
                assert(entries.deep_view()[j as int].0 == entries@[j as int].0@);
            }
            if crate::manifest::string_eq(&entries[i].0, &entries[j].0) {
                return false;
            }
            j = j + 1;
        }
        i = i + 1;
    }
    true
}

impl Manifest {
    /// The manifest a text means, when it means one: the parse of the
    /// text, with every absent optional field at its default. `None`
    /// exactly when the text does not parse.
    pub fn from_text(text: &str) -> (r: Option<Manifest>)
        ensures
            match r {
                Some(m) => parse_manifest(text@) == Some(m@) && m.wf(),
                None => parse_manifest(text@) is None,
            },
    {
        let cs = text_chars(text);
        let lines = split_lines(&cs);
        let (package, i) = match parse_pkg_ex(&lines) {
            Some(x) => x,
            None => {
                return None;
            },
        };
        let (dependencies, i2) = match parse_deps_ex(&lines, i, false) {
            Some(x) => x,
            None => {
                return None;
            },
        };
        let (dev_dependencies, i3) = match parse_deps_ex(&lines, i2, true) {
            Some(x) => x,
            None => {
                return None;
            },
        };
        if i3 != lines.len() {
            return None;
        }
        if !names_unique_ex(&dependencies) {
            return None;
        }
        if !names_unique_ex(&dev_dependencies) {
            return None;
        }
        let m = Manifest { package, dependencies, dev_dependencies };
        proof {
            assert(m@ =~~= parse_manifest(text@).unwrap());
        }
        Some(m)
    }
}

} // verus!

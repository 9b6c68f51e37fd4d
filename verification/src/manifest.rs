//! Project-declared dependencies, auto-detected from one of two manifest
//! styles, tried in a fixed priority order: a plain-text dependency list
//! (one dependency per non-empty, non-comment line), then a structured
//! project manifest (a `project.dependencies` array plus every array under
//! the `project.optional-dependencies` table).  When both are present only
//! the plain-text list counts; when neither is present the dependency list
//! is empty and the caller may emit a diagnostic notice.

use vstd::prelude::*;

verus! {

/// The byte values that count as whitespace when a dependency line is
/// trimmed: space, tab, line feed, form feed and carriage return.
pub open spec fn is_space(b: u8) -> bool {
    b == 32 || b == 9 || b == 10 || b == 12 || b == 13
}

/// A line without its leading whitespace.
pub open spec fn trim_start(s: Seq<u8>) -> Seq<u8>
    decreases s.len(),
{
    if s.len() > 0 && is_space(s[0]) {
        trim_start(s.drop_first())
    } else {
        s
    }
}

/// A line without its trailing whitespace.
pub open spec fn trim_end(s: Seq<u8>) -> Seq<u8>
    decreases s.len(),
{
    if s.len() > 0 && is_space(s.last()) {
        trim_end(s.drop_last())
    } else {
        s
    }
}

/// A line without its leading and trailing whitespace.
pub open spec fn trim(s: Seq<u8>) -> Seq<u8> {
    trim_end(trim_start(s))
}

/// Whether a line declares a dependency: trimmed, it is non-empty and is not
/// a `#` comment.
pub open spec fn keep_line(l: Seq<u8>) -> bool {
    trim(l).len() > 0 && trim(l)[0] != 35
}

/// The index of the first line feed in `s`, or `s.len()` if there is none.
pub open spec fn first_nl(s: Seq<u8>) -> int
    decreases s.len(),
{
    if s.len() == 0 {
        0
    } else if s[0] == 10 {
        0
    } else {
        1 + first_nl(s.drop_first())
    }
}

/// `first_nl` is characterized by what a left-to-right scan finds: no line
/// feed before `i`, and a line feed (or the end of the sequence) at `i`.
pub proof fn lemma_first_nl_is(s: Seq<u8>, i: int)
    requires
        0 <= i <= s.len(),
        forall|k: int| 0 <= k < i ==> s[k] != 10,
        i < s.len() ==> s[i] == 10,
    ensures
        first_nl(s) == i,
    decreases s.len(),
{
    if i == 0 {
    } else {
        assert(s[0] != 10);
        let t = s.drop_first();
        assert forall|k: int| 0 <= k < i - 1 implies t[k] != 10 by {
            assert(t[k] == s[k + 1]);
        }
        lemma_first_nl_is(t, i - 1);
    }
}

/// The dependencies declared by a plain-text dependency list: each line in
/// order, trimmed, keeping only the non-empty non-comment ones.
pub open spec fn requirements_deps(s: Seq<u8>) -> Seq<Seq<u8>>
    decreases s.len(),
{
    let i = first_nl(s);
    let head = if keep_line(s.take(i)) {
        seq![trim(s.take(i))]
    } else {
        Seq::<Seq<u8>>::empty()
    };
    if 0 <= i < s.len() {
        head + requirements_deps(s.skip(i + 1))
    } else {
        head
    }
}

/// Whether a byte counts as whitespace for trimming.
fn is_space_byte(b: u8) -> (r: bool)
    ensures
        r == is_space(b),
{
    b == 32 || b == 9 || b == 10 || b == 12 || b == 13
}

/// The bytes of `content[lo..hi]`, trimmed of leading and trailing
/// whitespace.
fn trimmed_range(content: &Vec<u8>, lo: usize, hi: usize) -> (r: Vec<u8>)
    requires
        lo <= hi <= content.len(),
    ensures
        r@ == trim(content@.subrange(lo as int, hi as int)),
{
    let ghost line = content@.subrange(lo as int, hi as int);
    proof {
        assert(line.skip(0) =~= line);
    }
    let mut a: usize = lo;
    while a < hi && is_space_byte(content[a])
        invariant
            lo <= a <= hi <= content.len(),
            line == content@.subrange(lo as int, hi as int),
            trim_start(line) == trim_start(line.skip(a - lo)),
        decreases hi - a,
    {
        proof {
            assert(line.skip(a - lo)[0] == content@[a as int]);
            assert(line.skip(a - lo).drop_first() =~= line.skip(a + 1 - lo));
        }
        a = a + 1;
    }
    proof {
        if a < hi {
            assert(line.skip(a - lo)[0] == content@[a as int]);
        }
        assert(trim_start(line) == line.skip(a - lo));
    }
    let ghost mid = line.skip(a - lo);
    proof {
        assert(mid.take(hi - a) =~= mid);
    }
    let mut b: usize = hi;
    while b > a && is_space_byte(content[b - 1])
        invariant
            lo <= a <= b <= hi <= content.len(),
            line == content@.subrange(lo as int, hi as int),
            mid == line.skip(a - lo),
            trim_end(mid) == trim_end(mid.take(b - a)),
        decreases b - a,
    {
        proof {
            assert(mid.take(b - a).last() == content@[b - 1]);
            assert(mid.take(b - a).drop_last() =~= mid.take(b - 1 - a));
        }
        b = b - 1;
    }
    proof {
        if b > a {
            assert(mid.take(b - a).last() == content@[b - 1]);
        }
        assert(trim_end(mid.take(b - a)) == mid.take(b - a));
    }
    let mut out: Vec<u8> = Vec::new();
    let mut k: usize = a;
    while k < b
        invariant
            lo <= a <= k <= b <= hi <= content.len(),
            line == content@.subrange(lo as int, hi as int),
            mid == line.skip(a - lo),
            out@ == mid.take(k - a),
        decreases b - k,
    {
        proof {
            assert(mid[k - a] == content@[k as int]);
            assert(mid.take(k + 1 - a) =~= mid.take(k - a).push(content@[k as int]));
        }
        out.push(content[k]);
        k = k + 1;
    }
    proof {
        assert(trim(line) == trim_end(mid));
        assert(out@ == mid.take(b - a));
    }
    out
}

/// Parse a plain-text dependency list: one dependency per line, trimmed of
/// whitespace, skipping blank lines and `#` comments.
pub fn parse_requirements(content: &Vec<u8>) -> (r: Vec<Vec<u8>>)
    ensures
        r.deep_view() == requirements_deps(content@),
{
    let n = content.len();
    let mut out: Vec<Vec<u8>> = Vec::new();
    let mut pos: usize = 0;
    proof {
        assert(content@.skip(0) =~= content@);
        assert(out.deep_view() =~= Seq::<Seq<u8>>::empty());
        assert(Seq::<Seq<u8>>::empty() + requirements_deps(content@) =~= requirements_deps(
            content@,
        ));
    }
    loop
        invariant_except_break
            pos <= n,
            n == content.len(),
            requirements_deps(content@) == out.deep_view() + requirements_deps(
                content@.skip(pos as int),
            ),
        ensures
            out.deep_view() == requirements_deps(content@),
        decreases n - pos,
    {
        let ghost rest = content@.skip(pos as int);
        let mut j: usize = pos;
        while j < n && content[j] != 10
            invariant
                pos <= j <= n,
                n == content.len(),
                forall|k: int| pos <= k < j ==> content@[k] != 10,
            decreases n - j,
        {
            j = j + 1;
        }
        proof {
            assert forall|k: int| 0 <= k < j - pos implies rest[k] != 10 by {
                assert(rest[k] == content@[pos + k]);
            }
            lemma_first_nl_is(rest, j - pos);
            assert(rest.take(j - pos) =~= content@.subrange(pos as int, j as int));
        }
        let ghost out0 = out.deep_view();
        let ghost head = if keep_line(rest.take(j - pos)) {
            seq![trim(rest.take(j - pos))]
        } else {
            Seq::<Seq<u8>>::empty()
        };
        let line = trimmed_range(content, pos, j);
        if line.len() > 0 && line[0] != 35 {
            out.push(line);
            proof {
                assert(out.deep_view() =~~= out0 + head);
            }
        } else {
            proof {
                assert(out.deep_view() =~~= out0 + head);
            }
        }
        if j == n {
            proof {
                assert(requirements_deps(rest) == head);
                assert(out.deep_view() =~= requirements_deps(content@));
            }
            break;
        }
        proof {
            assert(rest.skip(j - pos + 1) =~= content@.skip(j + 1));
            assert(requirements_deps(rest) == head + requirements_deps(rest.skip(j - pos + 1)));
            assert(out.deep_view() + requirements_deps(content@.skip(j + 1)) =~= out0
                + requirements_deps(rest));
        }
        pos = j + 1;
    }
    proof {
        assert(out.deep_view() == requirements_deps(content@));
    }
    out
}

/// The dependency strings a structured project manifest declares, as byte
/// sequences: the `project.dependencies` array, then every array under the
/// `project.optional-dependencies` table in its iteration order.  The result
/// is a function of the manifest content alone.
pub uninterp spec fn pyproject_deps_of(content: Seq<u8>) -> Seq<Seq<u8>>;

/// Relies on toml's document parsing (`FromStr` for `toml::Table`), the
/// accessors `Map::get`, `Value::get`, `Value::as_array`, `Value::as_str` and
/// `Value::as_table`, and the table's entry iterator: collects the strings under
/// `project.dependencies`, then the strings under every array of the
/// `project.optional-dependencies` table, in the table's iteration order.
/// Content that is not UTF-8 or not well-formed TOML yields no dependencies.
/// The result depends on the content bytes alone.
#[verifier::external_body]
fn pyproject_dependencies(content: &Vec<u8>) -> (r: Vec<Vec<u8>>)
    ensures
        r.deep_view() == pyproject_deps_of(content@),
{
    let text = String::from_utf8_lossy(content);
    let value = text.parse::<toml::Table>().unwrap_or_default();
    let dep = |d: &toml::Value| Some(Vec::from(d.as_str()?));
    let project = value.get("project");
    let direct = project.and_then(|p| p.get("dependencies")).and_then(|d| d.as_array());
    let mut out: Vec<_> = direct.into_iter().flatten().filter_map(dep).collect();
    let groups = project.and_then(|p| p.get("optional-dependencies"));
    for (_, g) in groups.and_then(|t| t.as_table()).into_iter().flatten() {
        out.extend(g.as_array().into_iter().flatten().filter_map(dep));
    }
    out
}

/// The view of an optional byte vector.
pub open spec fn opt_bytes(o: Option<Vec<u8>>) -> Option<Seq<u8>> {
    match o {
        Some(v) => Some(v@),
        None => None,
    }
}

/// The project-declared dependencies, given what was found on disk: the plain
/// dependency list when present (whatever the structured manifest holds), else
/// the structured manifest's declarations, else nothing.
pub open spec fn effective_deps(req: Option<Seq<u8>>, py: Option<Seq<u8>>) -> Seq<Seq<u8>> {
    match req {
        Some(c) => requirements_deps(c),
        None => match py {
            Some(c) => pyproject_deps_of(c),
            None => Seq::<Seq<u8>>::empty(),
        },
    }
}

/// Manifest priority: when a plain dependency list is present, the effective
/// dependencies are exactly its declarations, whatever structured manifest is
/// or is not present beside it.
pub proof fn lemma_manifest_priority(req: Seq<u8>, py1: Option<Seq<u8>>, py2: Option<Seq<u8>>)
    ensures
        effective_deps(Some(req), py1) == effective_deps(Some(req), py2),
        effective_deps(Some(req), py1) == requirements_deps(req),
{
}

/// Resolve the project-declared dependencies from the manifest contents that
/// were found (`None` where the file was absent or unreadable), in the fixed
/// priority order.  The second component is true when no manifest was found,
/// so that the caller may emit a diagnostic notice; that case contributes an
/// empty dependency list rather than an error.
pub fn project_dependencies(requirements: &Option<Vec<u8>>, pyproject: &Option<Vec<u8>>) -> (r: (
    Vec<Vec<u8>>,
    bool,
))
    ensures
        r.0.deep_view() == effective_deps(opt_bytes(*requirements), opt_bytes(*pyproject)),
        r.1 == (requirements is None && pyproject is None),
{
    if let Some(c) = requirements {
        return (parse_requirements(c), false);
    }
    if let Some(c) = pyproject {
        return (pyproject_dependencies(c), false);
    }
    let out: Vec<Vec<u8>> = Vec::new();
    proof {
        assert(out.deep_view() =~= Seq::<Seq<u8>>::empty());
    }
    (out, true)
}

} // verus!

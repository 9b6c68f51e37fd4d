//! Fingerprint derivation: fold a unit of work's gathered inputs, as one
//! ordered byte stream, into a 64-bit digest, and render it as the
//! fingerprint string.  The stream order is fixed: source-tree file contents,
//! environment entries, project-declared dependencies, explicit
//! file-dependency contents, the action name, the interpreter version.

use vstd::prelude::*;

use crate::digest::{
    FNV_OFFSET, FnvHasher, digest_of, fnv_fold, lemma_digest_single_byte_sensitive,
    lemma_fnv_fold_concat,
};
use crate::hex::{hex_chars, lemma_hex_chars_injective, to_hex_upper};
use crate::manifest::{effective_deps, opt_bytes, project_dependencies};

verus! {

/// One environment dependency as bytes: `NAME=VALUE`; an unset variable
/// contributes `NAME=` with an empty value, not an error.
pub open spec fn env_entry(name: Seq<u8>, value: Option<Seq<u8>>) -> Seq<u8> {
    name + seq![61u8] + match value {
        Some(v) => v,
        None => Seq::<u8>::empty(),
    }
}

/// Env default: a dependency naming an unset variable resolves to the name
/// followed by a bare `=` sign — nothing more.
pub proof fn lemma_env_default(name: Seq<u8>)
    ensures
        env_entry(name, None) == name + seq![61u8],
{
    assert(env_entry(name, None) =~= name + seq![61u8]);
}

/// The entry of one looked-up pair of a name and an optional value.
pub open spec fn env_entry_of_pair(p: (Vec<u8>, Option<Vec<u8>>)) -> Seq<u8> {
    env_entry(p.0@, opt_bytes(p.1))
}

/// The entries of a list of looked-up pairs, in order.
pub open spec fn env_entries_of(pairs: Seq<(Vec<u8>, Option<Vec<u8>>)>) -> Seq<Seq<u8>> {
    pairs.map_values(|p: (Vec<u8>, Option<Vec<u8>>)| env_entry_of_pair(p))
}

/// Format looked-up environment dependencies (each name with its value, or
/// `None` where the variable is unset) as `NAME=VALUE` entries, in order.
pub fn env_entries(pairs: &Vec<(Vec<u8>, Option<Vec<u8>>)>) -> (r: Vec<Vec<u8>>)
    ensures
        r.deep_view() == env_entries_of(pairs@),
{
    let mut out: Vec<Vec<u8>> = Vec::new();
    let mut i: usize = 0;
    proof {
        assert(out.deep_view() =~= env_entries_of(pairs@.take(0)));
    }
    while i < pairs.len()
        invariant
            i <= pairs.len(),
            out.deep_view() == env_entries_of(pairs@.take(i as int)),
        decreases pairs.len() - i,
    {
        let p = &pairs[i];
        let mut entry: Vec<u8> = Vec::new();
        entry.extend_from_slice(p.0.as_slice());
        entry.push(61);
        if let Some(v) = &p.1 {
            entry.extend_from_slice(v.as_slice());
        }
        proof {
            assert(entry@ =~= env_entry_of_pair(pairs@[i as int]));
        }
        let ghost out0 = out.deep_view();
        let ghost e = entry@;
        out.push(entry);
        proof {
            assert(out.deep_view() =~~= out0.push(e));
            assert(pairs@.take(i + 1) =~= pairs@.take(i as int).push(pairs@[i as int]));
            assert(env_entries_of(pairs@.take(i + 1)) =~~= out0.push(e));
        }
        i = i + 1;
    }
    proof {
        assert(pairs@.take(pairs@.len() as int) =~= pairs@);
    }
    out
}

/// The concatenation of a sequence of byte sequences, in order.
pub open spec fn concat_all(parts: Seq<Seq<u8>>) -> Seq<u8>
    decreases parts.len(),
{
    if parts.len() == 0 {
        Seq::<u8>::empty()
    } else {
        concat_all(parts.drop_last()) + parts.last()
    }
}

/// The single ordered byte stream that a unit of work's inputs induce.
pub open spec fn combined_input(
    sources: Seq<Seq<u8>>,
    envs: Seq<Seq<u8>>,
    deps: Seq<Seq<u8>>,
    files: Seq<Seq<u8>>,
    action: Seq<u8>,
    version: Seq<u8>,
) -> Seq<u8> {
    concat_all(sources) + concat_all(envs) + concat_all(deps) + concat_all(files) + action
        + version
}

/// The gathered inputs of one unit of work, everything the fingerprint is a
/// function of.  Each list's order matters: the same contents in a different
/// order generally yield a different fingerprint, so whoever gathers them
/// must supply a deterministic order (traversal order for the source tree,
/// resolution order for file dependencies).
pub struct WorkInputs {
    /// Contents of the discovered source-tree files, in traversal order.
    pub source_files: Vec<Vec<u8>>,
    /// Environment dependencies: each name with its looked-up value, `None`
    /// where the variable is unset.
    pub env_dependencies: Vec<(Vec<u8>, Option<Vec<u8>>)>,
    /// Content of the plain dependency-list file, when present and readable.
    pub requirements: Option<Vec<u8>>,
    /// Content of the structured project manifest, when present and readable.
    pub pyproject: Option<Vec<u8>>,
    /// Contents of the resolved explicit file dependencies, in resolution
    /// order.
    pub file_dependencies: Vec<Vec<u8>>,
    /// The action name's bytes.
    pub action: Vec<u8>,
    /// The interpreter/runtime version string's bytes.
    pub interpreter_version: Vec<u8>,
}

/// The byte stream a work descriptor's inputs induce, in the defined order.
pub open spec fn fingerprint_input(w: WorkInputs) -> Seq<u8> {
    combined_input(
        w.source_files.deep_view(),
        env_entries_of(w.env_dependencies@),
        effective_deps(opt_bytes(w.requirements), opt_bytes(w.pyproject)),
        w.file_dependencies.deep_view(),
        w.action@,
        w.interpreter_version@,
    )
}

/// The fingerprint of a unit of work: the digest of its input stream,
/// rendered as 16 upper-case hexadecimal digits.
pub open spec fn fingerprint_chars(w: WorkInputs) -> Seq<char> {
    hex_chars(digest_of(fingerprint_input(w)))
}

/// Determinism: the fingerprint is a function of the gathered input bytes
/// alone — two descriptors whose sections hold identical bytes yield the
/// identical fingerprint.
pub proof fn lemma_fingerprint_deterministic(w1: WorkInputs, w2: WorkInputs)
    requires
        w1.source_files.deep_view() == w2.source_files.deep_view(),
        env_entries_of(w1.env_dependencies@) == env_entries_of(w2.env_dependencies@),
        opt_bytes(w1.requirements) == opt_bytes(w2.requirements),
        opt_bytes(w1.pyproject) == opt_bytes(w2.pyproject),
        w1.file_dependencies.deep_view() == w2.file_dependencies.deep_view(),
        w1.action@ == w2.action@,
        w1.interpreter_version@ == w2.interpreter_version@,
    ensures
        fingerprint_chars(w1) == fingerprint_chars(w2),
{
}

/// The concatenation splits around any one part: everything before it, the
/// part itself, everything after it.
proof fn lemma_concat_all_split(parts: Seq<Seq<u8>>, k: int)
    requires
        0 <= k < parts.len(),
    ensures
        concat_all(parts) == concat_all(parts.take(k)) + parts[k] + concat_all(parts.skip(k + 1)),
    decreases parts.len(),
{
    if k == parts.len() - 1 {
        assert(parts.take(k) =~= parts.drop_last());
        assert(parts.skip(k + 1) =~= Seq::<Seq<u8>>::empty());
        assert(concat_all(parts.take(k)) + parts[k] + concat_all(parts.skip(k + 1)) =~= concat_all(
            parts.drop_last(),
        ) + parts.last());
    } else {
        let front = parts.drop_last();
        lemma_concat_all_split(front, k);
        assert(front.take(k) =~= parts.take(k));
        assert(front[k] == parts[k]);
        assert(front.skip(k + 1) =~= parts.skip(k + 1).drop_last());
        assert(parts.skip(k + 1).last() == parts.last());
        assert(parts.skip(k + 1).len() > 0);
        assert(concat_all(parts.skip(k + 1)) == concat_all(parts.skip(k + 1).drop_last())
            + parts.skip(k + 1).last());
        assert(concat_all(parts) =~= concat_all(parts.take(k)) + parts[k] + concat_all(
            parts.skip(k + 1),
        ));
    }
}

/// Sensitivity: changing a single byte in a single source file — all other
/// inputs fixed, the file's bytes before and after the changed one fixed —
/// changes the fingerprint.  (Collision-freedom over arbitrary changes is
/// more than a fixed-width digest can give: the fingerprint is
/// collision-tolerant, meant for cache invalidation, not for security.)
pub proof fn lemma_fingerprint_source_byte_sensitive(
    w1: WorkInputs,
    w2: WorkInputs,
    k: int,
    fpre: Seq<u8>,
    b1: u8,
    b2: u8,
    fsuf: Seq<u8>,
)
    requires
        b1 != b2,
        0 <= k < w1.source_files.deep_view().len(),
        w1.source_files.deep_view().len() == w2.source_files.deep_view().len(),
        forall|j: int|
            0 <= j < w1.source_files.deep_view().len() && j != k
                ==> w1.source_files.deep_view()[j] == w2.source_files.deep_view()[j],
        w1.source_files.deep_view()[k] == fpre.push(b1) + fsuf,
        w2.source_files.deep_view()[k] == fpre.push(b2) + fsuf,
        env_entries_of(w1.env_dependencies@) == env_entries_of(w2.env_dependencies@),
        opt_bytes(w1.requirements) == opt_bytes(w2.requirements),
        opt_bytes(w1.pyproject) == opt_bytes(w2.pyproject),
        w1.file_dependencies.deep_view() == w2.file_dependencies.deep_view(),
        w1.action@ == w2.action@,
        w1.interpreter_version@ == w2.interpreter_version@,
    ensures
        fingerprint_chars(w1) != fingerprint_chars(w2),
{
    let s1 = w1.source_files.deep_view();
    let s2 = w2.source_files.deep_view();
    lemma_concat_all_split(s1, k);
    lemma_concat_all_split(s2, k);
    assert(s1.take(k) =~= s2.take(k));
    assert(s1.skip(k + 1) =~= s2.skip(k + 1));
    let before = concat_all(s1.take(k));
    let after = concat_all(s1.skip(k + 1));
    let rest = concat_all(env_entries_of(w1.env_dependencies@)) + concat_all(
        effective_deps(opt_bytes(w1.requirements), opt_bytes(w1.pyproject)),
    ) + concat_all(w1.file_dependencies.deep_view()) + w1.action@ + w1.interpreter_version@;
    let prefix = before + fpre;
    let suffix = fsuf + after + rest;
    assert(fingerprint_input(w1) =~= prefix.push(b1) + suffix);
    assert(fingerprint_input(w2) =~= prefix.push(b2) + suffix);
    lemma_digest_single_byte_sensitive(prefix, b1, b2, suffix);
    if fingerprint_chars(w1) == fingerprint_chars(w2) {
        lemma_hex_chars_injective(
            digest_of(fingerprint_input(w1)),
            digest_of(fingerprint_input(w2)),
        );
    }
}

/// Sensitivity: two input streams of equal length that differ in exactly one
/// byte — one changed byte somewhere in the stream, everything else fixed —
/// render to different fingerprint strings.  (Collision-freedom over
/// arbitrary changes is more than a fixed-width digest can give: the
/// fingerprint is collision-tolerant, meant for cache invalidation, not for
/// security.)
pub proof fn lemma_fingerprint_single_byte_sensitive(
    prefix: Seq<u8>,
    b1: u8,
    b2: u8,
    suffix: Seq<u8>,
)
    requires
        b1 != b2,
    ensures
        hex_chars(digest_of(prefix.push(b1) + suffix)) != hex_chars(
            digest_of(prefix.push(b2) + suffix),
        ),
{
    lemma_digest_single_byte_sensitive(prefix, b1, b2, suffix);
    if hex_chars(digest_of(prefix.push(b1) + suffix)) == hex_chars(
        digest_of(prefix.push(b2) + suffix),
    ) {
        lemma_hex_chars_injective(
            digest_of(prefix.push(b1) + suffix),
            digest_of(prefix.push(b2) + suffix),
        );
    }
}

/// Mix a list of byte runs into the accumulator, in order: afterwards the
/// state is the fold of their concatenation.
fn write_sections(h: &mut FnvHasher, parts: &Vec<Vec<u8>>)
    ensures
        final(h).state == fnv_fold(old(h).state, concat_all(parts.deep_view())),
{
    let ghost h0 = h.state;
    let mut i: usize = 0;
    proof {
        assert(parts.deep_view().take(0) =~= Seq::<Seq<u8>>::empty());
    }
    while i < parts.len()
        invariant
            i <= parts.len(),
            h.state == fnv_fold(h0, concat_all(parts.deep_view().take(i as int))),
        decreases parts.len() - i,
    {
        let ghost pre = concat_all(parts.deep_view().take(i as int));
        let part = &parts[i];
        h.write_bytes(part);
        proof {
            assert(parts@[i as int].deep_view() =~= parts@[i as int]@);
            assert(parts.deep_view().take(i + 1).drop_last() =~= parts.deep_view().take(i as int));
            assert(parts.deep_view().take(i + 1).last() == parts@[i as int]@);
            lemma_fnv_fold_concat(h0, pre, parts@[i as int]@);
        }
        i = i + 1;
    }
    proof {
        assert(parts.deep_view().take(parts.deep_view().len() as int) =~= parts.deep_view());
    }
}

/// Derive the fingerprint of a unit of work from its gathered inputs: fold
/// the six input sections into the digest, in the defined order, and render
/// it as the fingerprint string.  Hashing itself cannot fail; errors can
/// occur only upstream, while gathering the bytes.  The second component is
/// true when no project manifest was found, so that the caller may emit a
/// diagnostic notice (the dependency section is then empty).
pub fn build_fingerprint(inputs: &WorkInputs) -> (r: (String, bool))
    ensures
        r.0@ == fingerprint_chars(*inputs),
        r.1 == (inputs.requirements is None && inputs.pyproject is None),
{
    let (deps, no_manifest) = project_dependencies(&inputs.requirements, &inputs.pyproject);
    let envs = env_entries(&inputs.env_dependencies);
    let mut h = FnvHasher::new();
    write_sections(&mut h, &inputs.source_files);
    write_sections(&mut h, &envs);
    write_sections(&mut h, &deps);
    write_sections(&mut h, &inputs.file_dependencies);
    h.write_bytes(&inputs.action);
    h.write_bytes(&inputs.interpreter_version);
    proof {
        let cs = concat_all(inputs.source_files.deep_view());
        let ce = concat_all(envs.deep_view());
        let cd = concat_all(deps.deep_view());
        let cf = concat_all(inputs.file_dependencies.deep_view());
        let act = inputs.action@;
        let ver = inputs.interpreter_version@;
        lemma_fnv_fold_concat(FNV_OFFSET, cs, ce);
        lemma_fnv_fold_concat(FNV_OFFSET, cs + ce, cd);
        lemma_fnv_fold_concat(FNV_OFFSET, cs + ce + cd, cf);
        lemma_fnv_fold_concat(FNV_OFFSET, cs + ce + cd + cf, act);
        lemma_fnv_fold_concat(FNV_OFFSET, cs + ce + cd + cf + act, ver);
        assert(h.state == digest_of(fingerprint_input(*inputs)));
    }
    let key = to_hex_upper(h.finish());
    (key, no_manifest)
}

} // verus!

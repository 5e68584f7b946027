use vstd::prelude::*;
use crate::dep::{
    Dep, admits, from_table_result, is_best_at, is_best_version, none_admitted, opt_version_view,
    tag_version, version_line, versions_from_tags,
};
use crate::depkey::{DepKey, full_postfix, key_name};
use crate::table::{dep_name_of_key, dep_names, ghdep_key, is_project_key};
use crate::text::{all_ascii, ascii_lower, ascii_upper, decimal, is_prefix, is_suffix, unicode_upper};
use crate::config::joined_contents;
use crate::dep::outfile_text;
use crate::version::{
    Order, SemVer, VersionModel, semver_order, semver_parse, semver_req_matches, version_text,
};

verus! {

/// The project keys among `keys`, in their order.
pub open spec fn project_keys(keys: Seq<Seq<char>>) -> Seq<Seq<char>> {
    keys.filter(|k: Seq<char>| is_project_key(k))
}

/// Every dependency listed from a table comes from one of its project keys:
/// the names are those of the project keys, one for each, in the keys'
/// order.
pub proof fn lemma_dep_names_from_project_keys(keys: Seq<Seq<char>>)
    ensures
        dep_names(keys) == project_keys(keys).map_values(|k: Seq<char>| dep_name_of_key(k)),
    decreases keys.len(),
{
    reveal_with_fuel(Seq::<_>::filter, 1);
    if keys.len() > 0 {
        lemma_dep_names_from_project_keys(keys.drop_last());
        assert(keys.drop_last().filter(|k: Seq<char>| is_project_key(k)) == project_keys(
            keys.drop_last(),
        ));
        assert(dep_names(keys) =~= project_keys(keys).map_values(
            |k: Seq<char>| dep_name_of_key(k),
        ));
    } else {
        assert(project_keys(keys) =~= Seq::<Seq<char>>::empty());
    }
}

/// The entries of different kinds of one dependency are under different
/// keys.
pub proof fn lemma_entry_keys_distinct(dep: Seq<char>, k1: DepKey, k2: DepKey)
    requires
        k1 != k2,
    ensures
        ghdep_key(dep, k1) != ghdep_key(dep, k2),
{
    reveal_strlit("PROJECT");
    reveal_strlit("TAG_PREFIX");
    reveal_strlit("VERSION");
    reveal_strlit("VERSION_REQ");
    reveal_strlit("GH");
    let p = crate::text::unicode_upper(dep) + seq!['_'];
    let a = full_postfix(k1);
    let b = full_postfix(k2);
    if ghdep_key(dep, k1) == ghdep_key(dep, k2) {
        assert(ghdep_key(dep, k1) =~= p + a);
        assert(ghdep_key(dep, k2) =~= p + b);
        assert((p + a).skip(p.len() as int) =~= a);
        assert((p + b).skip(p.len() as int) =~= b);
        assert(a == b);
        assert(a.skip(3) =~= key_name(k1));
        assert(b.skip(3) =~= key_name(k2));
        match k1 {
            DepKey::Project => {
                assert(key_name(k1)[0] == 'P');
            },
            DepKey::TagPrefix => {
                assert(key_name(k1)[0] == 'T');
            },
            DepKey::Version => {
                assert(key_name(k1).len() == 7);
            },
            DepKey::VersionReq => {
                assert(key_name(k1).len() == 11);
            },
        }
        match k2 {
            DepKey::Project => {
                assert(key_name(k2)[0] == 'P');
            },
            DepKey::TagPrefix => {
                assert(key_name(k2)[0] == 'T');
            },
            DepKey::Version => {
                assert(key_name(k2).len() == 7);
            },
            DepKey::VersionReq => {
                assert(key_name(k2).len() == 11);
            },
        }
    }
}

/// Each version found for a dependency comes from one of its tags: a tag
/// that starts with the prefix and whose rest is that version.
pub proof fn lemma_versions_come_from_tags(tags: Seq<Seq<char>>, prefix: Seq<char>, k: int)
    requires
        0 <= k < versions_from_tags(tags, prefix).len(),
    ensures
        exists|i: int|
            0 <= i < tags.len() && #[trigger] tag_version(tags[i], prefix) == Some(
                versions_from_tags(tags, prefix)[k],
            ),
    decreases tags.len(),
{
    let rest = versions_from_tags(tags.drop_last(), prefix);
    if k < rest.len() {
        lemma_versions_come_from_tags(tags.drop_last(), prefix, k);
        let i = choose|i: int|
            0 <= i < tags.drop_last().len() && #[trigger] tag_version(tags.drop_last()[i], prefix)
                == Some(rest[k]);
        assert(tags[i] == tags.drop_last()[i]);
    } else {
        let i = tags.len() - 1;
        assert(tag_version(tags[i], prefix) == Some(versions_from_tags(tags, prefix)[k]));
    }
}

/// The best version chosen for a dependency is the version of one of its
/// tags that starts with its prefix, and it satisfies the requirement.
pub proof fn lemma_best_version_from_tag(
    tags: Seq<Seq<char>>,
    prefix: Seq<char>,
    req: Option<Seq<char>>,
    best: SemVer,
)
    requires
        is_best_version(versions_from_tags(tags, prefix), req, Some(best)),
    ensures
        admits(req, best@),
        exists|i: int|
            0 <= i < tags.len() && is_prefix(prefix, tags[i]) && #[trigger] tag_version(
                tags[i],
                prefix,
            ) == Some(best@),
{
    let vs = versions_from_tags(tags, prefix);
    let k = choose|k: int| is_best_at(vs, req, k, best@);
    lemma_versions_come_from_tags(tags, prefix, k);
    let i = choose|i: int| 0 <= i < tags.len() && #[trigger] tag_version(tags[i], prefix) == Some(vs[k]);
    assert(is_prefix(prefix, tags[i]));
}

/// If every version of `v` is among those of `w` and the other way round,
/// a best version of `v` is a best version of `w`.
proof fn lemma_best_version_carries_over(
    v: Seq<VersionModel>,
    w: Seq<VersionModel>,
    req: Option<Seq<char>>,
    r: Option<SemVer>,
)
    requires
        forall|x: VersionModel| v.contains(x) <==> w.contains(x),
        is_best_version(v, req, r),
    ensures
        is_best_version(w, req, r),
{
    assert(none_admitted(v, req) <==> none_admitted(w, req)) by {
        if !none_admitted(v, req) {
            let j = choose|j: int| 0 <= j < v.len() && admits(req, #[trigger] v[j]);
            assert(v.contains(v[j]));
            let k = choose|k: int| 0 <= k < w.len() && w[k] == v[j];
            assert(admits(req, w[k]));
        }
        if !none_admitted(w, req) {
            let j = choose|j: int| 0 <= j < w.len() && admits(req, #[trigger] w[j]);
            assert(w.contains(w[j]));
            let k = choose|k: int| 0 <= k < v.len() && v[k] == w[j];
            assert(admits(req, v[k]));
        }
    }
    if let Some(b) = r {
        let i = choose|i: int| is_best_at(v, req, i, b@);
        assert(v.contains(v[i]));
        let k = choose|k: int| 0 <= k < w.len() && w[k] == v[i];
        assert forall|j: int|
            0 <= j < w.len() && admits(req, w[j]) && w[j] != b@ implies semver_order(
            #[trigger] w[j],
            b@,
        ) != Order::Greater by {
            assert(w.contains(w[j]));
            let m = choose|m: int| 0 <= m < v.len() && v[m] == w[j];
            assert(semver_order(v[m], b@) != Order::Greater);
        }
        assert(is_best_at(w, req, k, b@));
    }
}

/// Whether a version counts as the best one does not depend on the order of
/// the versions, nor on repeats: two lists that hold the same versions have
/// the same best versions.
pub proof fn lemma_best_version_ignores_order(
    v: Seq<VersionModel>,
    w: Seq<VersionModel>,
    req: Option<Seq<char>>,
    r: Option<SemVer>,
)
    requires
        forall|x: VersionModel| v.contains(x) <==> w.contains(x),
    ensures
        is_best_version(v, req, r) <==> is_best_version(w, req, r),
{
    if is_best_version(v, req, r) {
        lemma_best_version_carries_over(v, w, req, r);
    }
    if is_best_version(w, req, r) {
        lemma_best_version_carries_over(w, v, req, r);
    }
}

/// The best version of two lists joined: there is one exactly when either
/// list has one; it is a version of one of the lists that satisfies the
/// requirement; and neither list's best version exceeds it.
pub proof fn lemma_best_version_of_joined(
    a: Seq<VersionModel>,
    b: Seq<VersionModel>,
    req: Option<Seq<char>>,
    ra: Option<SemVer>,
    rb: Option<SemVer>,
    rc: Option<SemVer>,
)
    requires
        is_best_version(a, req, ra),
        is_best_version(b, req, rb),
        is_best_version(a + b, req, rc),
    ensures
        rc is None <==> (ra is None && rb is None),
        rc matches Some(c) ==> admits(req, c@) && (a.contains(c@) || b.contains(c@)),
        rc matches Some(c) ==> (ra matches Some(x) ==> (x@ == c@ || semver_order(x@, c@)
            != Order::Greater)),
        rc matches Some(c) ==> (rb matches Some(y) ==> (y@ == c@ || semver_order(y@, c@)
            != Order::Greater)),
{
    let ab = a + b;
    assert(none_admitted(ab, req) <==> (none_admitted(a, req) && none_admitted(b, req))) by {
        if !none_admitted(a, req) {
            let j = choose|j: int| 0 <= j < a.len() && admits(req, #[trigger] a[j]);
            assert(ab[j] == a[j]);
        }
        if !none_admitted(b, req) {
            let j = choose|j: int| 0 <= j < b.len() && admits(req, #[trigger] b[j]);
            assert(ab[a.len() + j] == b[j]);
        }
        if !none_admitted(ab, req) {
            let j = choose|j: int| 0 <= j < ab.len() && admits(req, #[trigger] ab[j]);
            if j < a.len() {
                assert(a[j] == ab[j]);
            } else {
                assert(b[j - a.len()] == ab[j]);
            }
        }
    }
    if let Some(c) = rc {
        let i = choose|i: int| is_best_at(ab, req, i, c@);
        if i < a.len() {
            assert(a[i] == ab[i]);
            assert(a.contains(c@));
        } else {
            assert(b[i - a.len()] == ab[i]);
            assert(b.contains(c@));
        }
        if let Some(x) = ra {
            let p = choose|p: int| is_best_at(a, req, p, x@);
            assert(ab[p] == a[p]);
            if x@ != c@ {
                assert(semver_order(ab[p], c@) != Order::Greater);
            }
        }
        if let Some(y) = rb {
            let p = choose|p: int| is_best_at(b, req, p, y@);
            assert(ab[a.len() + p] == b[p]);
            if y@ != c@ {
                assert(semver_order(ab[a.len() + p], c@) != Order::Greater);
            }
        }
    }
}

/// The key of a dependency's line in the versions file: the name in ASCII
/// upper case and `_GH_VERSION`.
pub open spec fn version_line_key(name: Seq<char>) -> Seq<char> {
    ascii_upper(name) + "_GH_VERSION"@
}

/// What is written is read back: a dependency's version line is its key,
/// `="`, the version's text and `"`; for an ASCII name that key is the one
/// under which `Dep::from_table` reads the current version; so where the
/// table read back holds the written text under that key, and `semver`
/// parses the text of the version back to it, the dependency read back has
/// that version as its current version.
pub proof fn lemma_written_version_read_back(
    entries: Map<Seq<char>, Option<Seq<char>>>,
    name: Seq<char>,
    d: Dep,
    v: SemVer,
)
    requires
        from_table_result(entries, name, d),
        all_ascii(name),
        entries.contains_key(version_line_key(name)),
        entries[version_line_key(name)] == Some(version_text(v@)),
        semver_parse(version_text(v@)) == Some(v@),
    ensures
        version_line(name, version_text(v@)) == version_line_key(name) + "=\""@ + version_text(v@)
            + "\""@,
        version_line_key(name) == ghdep_key(name, DepKey::Version),
        opt_version_view(d.current_version) == Some(v@),
{
    reveal_strlit("_GH_VERSION");
    reveal_strlit("_GH_VERSION=\"");
    reveal_strlit("=\"");
    reveal_strlit("GH");
    reveal_strlit("VERSION");
    assert("_GH_VERSION=\""@ =~= "_GH_VERSION"@ + "=\""@);
    assert(version_line(name, version_text(v@)) =~= version_line_key(name) + "=\""@
        + version_text(v@) + "\""@);
    assert(unicode_upper(name) == ascii_upper(name));
    assert(ghdep_key(name, DepKey::Version) =~= version_line_key(name));
}

/// The shape of the name of a key kind: its characters and its last one.
proof fn lemma_key_name_shape(k: DepKey)
    ensures
        key_name(k).len() > 0,
        forall|i: int|
            0 <= i < key_name(k).len() ==> ('A' <= #[trigger] key_name(k)[i] && key_name(k)[i]
                <= 'Z') || key_name(k)[i] == '_',
        full_postfix(k).len() > 0,
        full_postfix(k).last() == key_name(k).last(),
        key_name(k).last() == match k {
            DepKey::Project => 'T',
            DepKey::TagPrefix => 'X',
            DepKey::Version => 'N',
            DepKey::VersionReq => 'Q',
        },
{
    reveal_strlit("PROJECT");
    reveal_strlit("TAG_PREFIX");
    reveal_strlit("VERSION");
    reveal_strlit("VERSION_REQ");
    reveal_strlit("GH");
    match k {
        DepKey::Project => {
            assert(key_name(k) =~= seq!['P', 'R', 'O', 'J', 'E', 'C', 'T']);
        },
        DepKey::TagPrefix => {
            assert(key_name(k) =~= seq!['T', 'A', 'G', '_', 'P', 'R', 'E', 'F', 'I', 'X']);
        },
        DepKey::Version => {
            assert(key_name(k) =~= seq!['V', 'E', 'R', 'S', 'I', 'O', 'N']);
        },
        DepKey::VersionReq => {
            assert(key_name(k) =~= seq!['V', 'E', 'R', 'S', 'I', 'O', 'N', '_', 'R', 'E', 'Q']);
        },
    }
}

/// The names of the key kinds are not empty, are made of ASCII capitals and
/// `_`, and differ from kind to kind; and no kind's postfix (`GH_` and its
/// name) is a suffix of another kind's, so keys of different kinds never
/// collide.
pub proof fn lemma_key_kinds_apart(k1: DepKey, k2: DepKey)
    ensures
        key_name(k1).len() > 0,
        forall|i: int|
            0 <= i < key_name(k1).len() ==> ('A' <= #[trigger] key_name(k1)[i] && key_name(k1)[i]
                <= 'Z') || key_name(k1)[i] == '_',
        k1 != k2 ==> key_name(k1) != key_name(k2),
        k1 != k2 ==> !is_suffix(full_postfix(k1), full_postfix(k2)),
{
    lemma_key_name_shape(k1);
    lemma_key_name_shape(k2);
    if k1 != k2 {
        assert(key_name(k1).last() != key_name(k2).last());
        let a = full_postfix(k1);
        let b = full_postfix(k2);
        if is_suffix(a, b) {
            assert(b.skip(b.len() - a.len()).last() == b.last());
        }
    }
}

// ---------------------------------------------------------------------------
// What the operations are for

/// The best version is chosen among all versions that satisfy the
/// requirement as `semver` matches it (every version, where there is no
/// requirement): there is no best version only where no version satisfies
/// it; the best version is one of the versions, satisfies the requirement,
/// and no other version that satisfies it is greater.
pub proof fn lemma_best_version_satisfies_requirement(
    vs: Seq<VersionModel>,
    req: Option<Seq<char>>,
    r: Option<SemVer>,
)
    requires
        is_best_version(vs, req, r),
    ensures
        r is None ==> forall|j: int|
            0 <= j < vs.len() ==> req is Some && !semver_req_matches(req->0, #[trigger] vs[j]),
        r matches Some(b) ==> match req {
            None => true,
            Some(q) => semver_req_matches(q, b@),
        },
        r matches Some(b) ==> vs.contains(b@),
        r matches Some(b) ==> forall|j: int|
            0 <= j < vs.len() && (req is None || semver_req_matches(req->0, #[trigger] vs[j]))
                && vs[j] != b@ ==> semver_order(vs[j], b@) != Order::Greater,
{
    if r is None {
        assert(none_admitted(vs, req));
        if req is None {
            if vs.len() > 0 {
                assert(!admits(req, vs[0]));
            }
            assert(vs.len() == 0);
        } else {
            assert forall|j: int| 0 <= j < vs.len() implies !semver_req_matches(
                req->0,
                #[trigger] vs[j],
            ) by {
                assert(!admits(req, vs[j]));
            }
        }
    } else {
        let b = r->0;
        let i = choose|i: int| is_best_at(vs, req, i, b@);
        assert(admits(req, vs[i]));
        assert(vs.contains(vs[i]));
        assert forall|j: int|
            0 <= j < vs.len() && (req is None || semver_req_matches(req->0, #[trigger] vs[j]))
                && vs[j] != b@ implies semver_order(vs[j], b@) != Order::Greater by {
            assert(admits(req, vs[j]));
        }
    }
}

/// The versions found in tags distribute over the tags: those of two lists
/// of tags joined are those of the first list followed by those of the
/// second.
pub proof fn lemma_versions_from_tags_join(a: Seq<Seq<char>>, b: Seq<Seq<char>>, prefix: Seq<char>)
    ensures
        versions_from_tags(a + b, prefix) == versions_from_tags(a, prefix) + versions_from_tags(
            b,
            prefix,
        ),
    decreases b.len(),
{
    if b.len() == 0 {
        assert(a + b =~= a);
        assert(versions_from_tags(a, prefix) + versions_from_tags(b, prefix) =~= versions_from_tags(
            a,
            prefix,
        ));
    } else {
        lemma_versions_from_tags_join(a, b.drop_last(), prefix);
        assert((a + b).drop_last() =~= a + b.drop_last());
        assert((a + b).last() == b.last());
        let va = versions_from_tags(a, prefix);
        let vb = versions_from_tags(b.drop_last(), prefix);
        match tag_version(b.last(), prefix) {
            Some(v) => {
                assert((va + vb).push(v) =~= va + vb.push(v));
            },
            None => {},
        }
    }
}

/// A single tag gives its version exactly when it starts with the prefix
/// and `semver` parses the rest of it, and gives nothing otherwise.
pub proof fn lemma_versions_from_one_tag(tag: Seq<char>, prefix: Seq<char>)
    ensures
        versions_from_tags(seq![tag], prefix) == (if is_prefix(prefix, tag) && semver_parse(
            tag.skip(prefix.len() as int),
        ) is Some {
            seq![semver_parse(tag.skip(prefix.len() as int))->0]
        } else {
            Seq::<VersionModel>::empty()
        }),
{
    let s = seq![tag];
    assert(s.drop_last() =~= Seq::<Seq<char>>::empty());
    assert(s.last() == tag);
    assert(versions_from_tags(Seq::<Seq<char>>::empty(), prefix) =~= Seq::<VersionModel>::empty());
    if is_prefix(prefix, tag) && semver_parse(tag.skip(prefix.len() as int)) is Some {
        assert(Seq::<VersionModel>::empty().push(semver_parse(tag.skip(prefix.len() as int))->0)
            =~= seq![semver_parse(tag.skip(prefix.len() as int))->0]);
    }
}

/// ASCII lower-casing leaves no capital letter `A`..=`Z`, turns each capital
/// into the letter 32 code points above it, and keeps every other
/// character.
pub proof fn lemma_ascii_lower_leaves_no_capitals(s: Seq<char>)
    ensures
        ascii_lower(s).len() == s.len(),
        forall|j: int|
            0 <= j < s.len() ==> !('A' <= #[trigger] ascii_lower(s)[j] && ascii_lower(s)[j] <= 'Z'),
        forall|j: int|
            0 <= j < s.len() && 'A' <= #[trigger] s[j] && s[j] <= 'Z' ==> (ascii_lower(s)[j] as u32)
                == (s[j] as u32) + 32,
        forall|j: int|
            0 <= j < s.len() && !('A' <= #[trigger] s[j] && s[j] <= 'Z') ==> ascii_lower(s)[j]
                == s[j],
{
    assert forall|j: int| 0 <= j < s.len() implies !('A' <= #[trigger] ascii_lower(s)[j]
        && ascii_lower(s)[j] <= 'Z') && (('A' <= s[j] && s[j] <= 'Z') ==> (ascii_lower(s)[j] as u32)
        == (s[j] as u32) + 32) by {
        let c = s[j];
        if 'A' <= c && c <= 'Z' {
            let d = ((c as u32) + 32) as char;
            assert((d as u32) == (c as u32) + 32);
        }
    }
}

/// ASCII upper-casing leaves no small letter `a`..=`z`, turns each small
/// letter into the letter 32 code points below it, and keeps every other
/// character.
pub proof fn lemma_ascii_upper_leaves_no_small_letters(s: Seq<char>)
    ensures
        ascii_upper(s).len() == s.len(),
        forall|j: int|
            0 <= j < s.len() ==> !('a' <= #[trigger] ascii_upper(s)[j] && ascii_upper(s)[j] <= 'z'),
        forall|j: int|
            0 <= j < s.len() && 'a' <= #[trigger] s[j] && s[j] <= 'z' ==> (ascii_upper(s)[j] as u32)
                + 32 == (s[j] as u32),
        forall|j: int|
            0 <= j < s.len() && !('a' <= #[trigger] s[j] && s[j] <= 'z') ==> ascii_upper(s)[j]
                == s[j],
{
    assert forall|j: int| 0 <= j < s.len() implies !('a' <= #[trigger] ascii_upper(s)[j]
        && ascii_upper(s)[j] <= 'z') && (('a' <= s[j] && s[j] <= 'z') ==> (ascii_upper(s)[j] as u32)
        + 32 == (s[j] as u32)) by {
        let c = s[j];
        if 'a' <= c && c <= 'z' {
            let d = ((c as u32) - 32) as char;
            assert((d as u32) == (c as u32) - 32);
        }
    }
}

/// A text starts with a prefix exactly when it is the prefix followed by
/// some rest: the prefix followed by anything starts with it, and a text
/// that starts with it is the prefix followed by what comes after it.
pub proof fn lemma_prefix_exactly(p: Seq<char>, t: Seq<char>, s: Seq<char>)
    ensures
        is_prefix(p, p + t),
        is_prefix(p, s) ==> s == p + s.skip(p.len() as int),
{
    assert((p + t).take(p.len() as int) =~= p);
    if is_prefix(p, s) {
        assert(s =~= s.take(p.len() as int) + s.skip(p.len() as int));
    }
}

/// A text ends with a suffix exactly when it is some start followed by the
/// suffix: anything followed by the suffix ends with it, and a text that
/// ends with it is what comes before it followed by the suffix.
pub proof fn lemma_suffix_exactly(x: Seq<char>, t: Seq<char>, s: Seq<char>)
    ensures
        is_suffix(x, t + x),
        is_suffix(x, s) ==> s == s.take(s.len() - x.len()) + x,
{
    assert((t + x).skip(t.len() as int) =~= x);
    if is_suffix(x, s) {
        assert(s =~= s.take(s.len() - x.len()) + s.skip(s.len() - x.len()));
    }
}

/// The key `NAME_GH_PROJECT` is a project key, and the dependency it names
/// is `NAME` in ASCII lower case, whatever `NAME` is.
pub proof fn lemma_dep_name_of_project_key(n: Seq<char>)
    ensures
        is_project_key(n + "_GH_PROJECT"@),
        dep_name_of_key(n + "_GH_PROJECT"@) == ascii_lower(n),
{
    reveal_strlit("_GH_PROJECT");
    reveal_strlit("GH");
    reveal_strlit("PROJECT");
    let k = n + "_GH_PROJECT"@;
    let x = crate::table::project_postfix();
    assert(x =~= seq!['G', 'H', '_', 'P', 'R', 'O', 'J', 'E', 'C', 'T']);
    assert(k.skip(k.len() - x.len()) =~= x);
    assert(k.take(k.len() - x.len() - 1) =~= n);
}

/// The number that a text of decimal digits stands for.
pub open spec fn digits_value(s: Seq<char>) -> int
    decreases s.len(),
{
    if s.len() == 0 {
        0
    } else {
        digits_value(s.drop_last()) * 10 + ((s.last() as u32) - 48)
    }
}

/// The decimal text of a number is made of the digits `0`..=`9`, starts
/// with `0` only where it is `0` itself, and reads back as the number.
pub proof fn lemma_decimal_reads_back(n: nat)
    ensures
        decimal(n).len() > 0,
        forall|j: int| 0 <= j < decimal(n).len() ==> '0' <= #[trigger] decimal(n)[j] && decimal(n)[j] <= '9',
        decimal(n)[0] == '0' ==> n == 0,
        digits_value(decimal(n)) == n,
    decreases n,
{
    let c = crate::text::digit_char(n % 10);
    assert((c as u32) == 48 + n % 10);
    if n < 10 {
        let d = decimal(n);
        assert(d.drop_last() =~= Seq::<char>::empty());
        assert(d.last() == c);
        assert(digits_value(d) == digits_value(d.drop_last()) * 10 + ((d.last() as u32) - 48));
    } else {
        lemma_decimal_reads_back(n / 10);
        let d = decimal(n);
        assert(d.drop_last() =~= decimal(n / 10));
        assert(d[0] == decimal(n / 10)[0]);
        assert forall|j: int| 0 <= j < d.len() implies '0' <= #[trigger] d[j] && d[j] <= '9' by {
            if j < d.len() - 1 {
                assert(d[j] == decimal(n / 10)[j]);
            }
        }
        assert(d.last() == c);
        assert(digits_value(d) == digits_value(d.drop_last()) * 10 + ((d.last() as u32) - 48));
        assert(n == (n / 10) * 10 + n % 10);
    }
}

/// The names of the dependencies listed from a table are in lower case: no
/// name holds a capital letter `A`..=`Z`.
pub proof fn lemma_dep_names_lower_case(keys: Seq<Seq<char>>)
    ensures
        forall|i: int, j: int|
            0 <= i < dep_names(keys).len() && 0 <= j < dep_names(keys)[i].len() ==> !('A'
                <= #[trigger] dep_names(keys)[i][j] && dep_names(keys)[i][j] <= 'Z'),
{
    lemma_dep_names_from_project_keys(keys);
    assert forall|i: int, j: int|
        0 <= i < dep_names(keys).len() && 0 <= j < dep_names(keys)[i].len() implies !('A'
        <= #[trigger] dep_names(keys)[i][j] && dep_names(keys)[i][j] <= 'Z') by {
        let k = project_keys(keys)[i];
        assert(dep_names(keys)[i] == dep_name_of_key(k));
        lemma_ascii_lower_leaves_no_capitals(k.take(k.len() - crate::table::project_postfix().len() - 1));
    }
}

/// The versions file of two lists of dependencies joined is the file of
/// the first list followed by that of the second.
pub proof fn lemma_outfile_join(a: Seq<Dep>, b: Seq<Dep>)
    ensures
        outfile_text(a + b) == outfile_text(a) + outfile_text(b),
    decreases b.len(),
{
    if b.len() == 0 {
        assert(a + b =~= a);
        assert(outfile_text(a) + outfile_text(b) =~= outfile_text(a));
    } else {
        lemma_outfile_join(a, b.drop_last());
        assert((a + b).drop_last() =~= a + b.drop_last());
        assert((a + b).last() == b.last());
    }
}

/// The versions file of one dependency is exactly its line: its name in
/// ASCII upper case, `_GH_VERSION="`, the text of its best version (empty
/// where there is none) and `"` and a line end, whatever else the
/// dependency holds.
pub proof fn lemma_outfile_one_dep(d: Dep)
    ensures
        outfile_text(seq![d]) == ascii_upper(d.name@) + "_GH_VERSION=\""@ + (match d.best_version {
            Some(v) => version_text(v@),
            None => Seq::<char>::empty(),
        }) + "\""@ + "\r\n"@,
{
    let s = seq![d];
    assert(s.drop_last() =~= Seq::<Dep>::empty());
    assert(s.last() == d);
    assert(outfile_text(Seq::<Dep>::empty()) =~= Seq::<char>::empty());
    assert(outfile_text(s) =~= ascii_upper(d.name@) + "_GH_VERSION=\""@ + (match d.best_version {
        Some(v) => version_text(v@),
        None => Seq::<char>::empty(),
    }) + "\""@ + "\r\n"@);
}

/// The bytes read from the configuration files joined: those of two lists
/// of files joined are those of the first list followed by those of the
/// second.
pub proof fn lemma_joined_contents_join(a: Seq<Seq<u8>>, b: Seq<Seq<u8>>)
    ensures
        joined_contents(a + b) == joined_contents(a) + joined_contents(b),
    decreases b.len(),
{
    if b.len() == 0 {
        assert(a + b =~= a);
        assert(joined_contents(a) + joined_contents(b) =~= joined_contents(a));
    } else {
        lemma_joined_contents_join(a, b.drop_last());
        assert((a + b).drop_last() =~= a + b.drop_last());
        assert((a + b).last() == b.last());
    }
}

/// One configuration file gives all its bytes, whatever they are, followed
/// by a newline.
pub proof fn lemma_joined_contents_one(c: Seq<u8>)
    ensures
        joined_contents(seq![c]) == c + seq![10u8],
{
    let s = seq![c];
    assert(s.drop_last() =~= Seq::<Seq<u8>>::empty());
    assert(s.last() == c);
    assert(joined_contents(Seq::<Seq<u8>>::empty()) =~= Seq::<u8>::empty());
    assert(Seq::<u8>::empty() + c + seq![10u8] =~= c + seq![10u8]);
    assert(joined_contents(s) == joined_contents(s.drop_last()) + s.last() + seq![10u8]);
}

} // verus!

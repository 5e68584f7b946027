use vstd::prelude::*;
use crate::depkey::DepKey;
use crate::table::{GhDepContainer, ghdep_key, table_entries, text_value};
use crate::text::{
    all_ascii, ascii_upper, is_prefix, join, join_seqs, starts_with, to_ascii_uppercase,
    unicode_upper, views,
};
use crate::version::{
    Order, SemVer, SemVerReq, VersionModel, compare_semver, is_semver, semver_order, semver_parse,
    semver_req_matches, semver_req_parses, version_text,
};

verus! {

/// A dependency: where its tags are found, which versions it may take, and
/// what was found for it.
pub struct Dep {
    pub name: String,
    pub project: String,
    pub version_req: Option<SemVerReq>,
    pub current_version: Option<SemVer>,
    pub tag_prefix: String,
    pub available_tags: Vec<String>,
    pub available_versions: Vec<SemVer>,
    pub best_version: Option<SemVer>,
}

pub open spec fn or_empty(o: Option<Seq<char>>) -> Seq<char> {
    match o {
        Some(s) => s,
        None => Seq::empty(),
    }
}

pub open spec fn version_views(vs: Seq<SemVer>) -> Seq<VersionModel> {
    vs.map_values(|v: SemVer| v@)
}

pub open spec fn opt_version_view(o: Option<SemVer>) -> Option<VersionModel> {
    match o {
        Some(v) => Some(v@),
        None => None,
    }
}

pub open spec fn opt_req_view(o: Option<SemVerReq>) -> Option<Seq<char>> {
    match o {
        Some(q) => Some(q@),
        None => None,
    }
}

/// The requirement parsed from a text: the text itself where `semver`
/// accepts it.
pub open spec fn parsed_req(text: Seq<char>) -> Option<Seq<char>> {
    if semver_req_parses(text) {
        Some(text)
    } else {
        None
    }
}

/// The version a tag stands for: the rest of the tag after the prefix,
/// parsed, where the tag starts with the prefix.
pub open spec fn tag_version(tag: Seq<char>, prefix: Seq<char>) -> Option<VersionModel> {
    if is_prefix(prefix, tag) {
        semver_parse(tag.skip(prefix.len() as int))
    } else {
        None
    }
}

/// The versions that the tags stand for, in the tags' order.
pub open spec fn versions_from_tags(tags: Seq<Seq<char>>, prefix: Seq<char>) -> Seq<VersionModel>
    decreases tags.len(),
{
    if tags.len() == 0 {
        Seq::empty()
    } else {
        let rest = versions_from_tags(tags.drop_last(), prefix);
        match tag_version(tags.last(), prefix) {
            Some(v) => rest.push(v),
            None => rest,
        }
    }
}

/// Whether a version satisfies an optional requirement (no requirement
/// admits every version).
pub open spec fn admits(req: Option<Seq<char>>, v: VersionModel) -> bool {
    match req {
        None => true,
        Some(q) => semver_req_matches(q, v),
    }
}

/// `best` is the version at index `i` of `vs`, it satisfies the requirement,
/// and no version there that differs from it and satisfies the requirement
/// is greater.
pub open spec fn is_best_at(
    vs: Seq<VersionModel>,
    req: Option<Seq<char>>,
    i: int,
    best: VersionModel,
) -> bool {
    &&& 0 <= i < vs.len()
    &&& admits(req, vs[i])
    &&& vs[i] == best
    &&& forall|j: int|
        0 <= j < vs.len() && admits(req, vs[j]) && vs[j] != best ==> semver_order(
            #[trigger] vs[j],
            best,
        ) != Order::Greater
}

/// No version among `vs` satisfies the requirement.
pub open spec fn none_admitted(vs: Seq<VersionModel>, req: Option<Seq<char>>) -> bool {
    forall|j: int| 0 <= j < vs.len() ==> !admits(req, #[trigger] vs[j])
}

/// `r` is the best version among `vs` for the requirement: `None` where none
/// satisfies it, else one that does and that no other one that does
/// exceeds.
pub open spec fn is_best_version(
    vs: Seq<VersionModel>,
    req: Option<Seq<char>>,
    r: Option<SemVer>,
) -> bool {
    &&& r is None <==> none_admitted(vs, req)
    &&& r matches Some(b) ==> exists|i: int| is_best_at(vs, req, i, b@)
}

/// `d` is dependency `dep` as the table's entries describe it, with nothing
/// found for it yet: its project and tag prefix are the texts of their
/// entries (empty where absent), its version and requirement are parsed from
/// theirs.
pub open spec fn made_from_table(
    entries: Map<Seq<char>, Option<Seq<char>>>,
    dep: Seq<char>,
    d: Dep,
) -> bool {
    &&& d.name@ == dep
    &&& d.project@ == or_empty(text_value(entries, ghdep_key(dep, DepKey::Project)))
    &&& opt_req_view(d.version_req) == parsed_req(
        or_empty(text_value(entries, ghdep_key(dep, DepKey::VersionReq))),
    )
    &&& opt_version_view(d.current_version) == semver_parse(
        or_empty(text_value(entries, ghdep_key(dep, DepKey::Version))),
    )
    &&& d.tag_prefix@ == or_empty(text_value(entries, ghdep_key(dep, DepKey::TagPrefix)))
    &&& d.available_tags@.len() == 0
    &&& d.available_versions@.len() == 0
    &&& d.best_version is None
}

/// `d` is what `Dep::from_table` gives for `dep` on a table with these
/// entries: it is made as `made_from_table` says, by keys in which an ASCII
/// name is upper-cased the ASCII way.
pub open spec fn from_table_result(
    entries: Map<Seq<char>, Option<Seq<char>>>,
    dep: Seq<char>,
    d: Dep,
) -> bool {
    &&& made_from_table(entries, dep, d)
    &&& all_ascii(dep) ==> unicode_upper(dep) == ascii_upper(dep)
}

fn info_or_empty(table: &toml::Table, dep: &str, key: DepKey) -> (r: String)
    ensures
        r@ == or_empty(text_value(table_entries(*table), ghdep_key(dep@, key))),
        all_ascii(dep@) ==> unicode_upper(dep@) == ascii_upper(dep@),
{
    match table.get_ghdep_info(dep, key) {
        Some(s) => s,
        None => String::new(),
    }
}

impl Dep {
    /// The dependency `dep` as the configuration table describes it, with
    /// nothing found for it yet.
    pub fn from_table(table: &toml::Table, dep: &str) -> (r: Self)
        ensures
            from_table_result(table_entries(*table), dep@, r),
    {
        let v = SemVer::parse(info_or_empty(table, dep, DepKey::Version).as_str());
        let vr = SemVerReq::parse(info_or_empty(table, dep, DepKey::VersionReq).as_str());
        Dep {
            name: String::from_str(dep),
            project: info_or_empty(table, dep, DepKey::Project),
            version_req: vr,
            current_version: v,
            tag_prefix: info_or_empty(table, dep, DepKey::TagPrefix),
            available_tags: Vec::new(),
            available_versions: Vec::new(),
            best_version: None,
        }
    }

    /// The versions that the tags starting with the prefix stand for.
    pub fn get_versions_from_tags(tags: &Vec<String>, tag_prefix: &str) -> (r: Vec<SemVer>)
        ensures
            version_views(r@) == versions_from_tags(views(tags@), tag_prefix@),
    {
        let mut r: Vec<SemVer> = Vec::new();
        let ghost tv = views(tags@);
        let n = tags.len();
        let m = tag_prefix.unicode_len();
        let mut i: usize = 0;
        while i < n
            invariant
                n == tags@.len(),
                tv == views(tags@),
                m == tag_prefix@.len(),
                i <= n,
                version_views(r@) == versions_from_tags(tv.take(i as int), tag_prefix@),
            decreases n - i,
        {
            assert(tv.take(i + 1).drop_last() =~= tv.take(i as int));
            let tag = tags[i].as_str();
            assert(tv[i as int] == tag@);
            if starts_with(tag, tag_prefix) {
                let rest = tag.substring_char(m, tag.unicode_len());
                assert(rest@ =~= tag@.skip(m as int));
                match SemVer::parse(rest) {
                    Some(v) => {
                        r.push(v);
                        assert(version_views(r@) =~= versions_from_tags(
                            tv.take(i as int),
                            tag_prefix@,
                        ).push(v@));
                    },
                    None => {},
                }
            }
            i = i + 1;
        }
        assert(tv.take(n as int) =~= tv);
        r
    }

    /// Sets the available versions from the available tags.
    pub fn update_versions_from_tags(&mut self)
        ensures
            version_views(final(self).available_versions@) == versions_from_tags(
                views(old(self).available_tags@),
                old(self).tag_prefix@,
            ),
            final(self).name == old(self).name,
            final(self).project == old(self).project,
            final(self).version_req == old(self).version_req,
            final(self).current_version == old(self).current_version,
            final(self).tag_prefix == old(self).tag_prefix,
            final(self).available_tags == old(self).available_tags,
            final(self).best_version == old(self).best_version,
    {
        self.available_versions = Dep::get_versions_from_tags(
            &self.available_tags,
            self.tag_prefix.as_str(),
        );
    }

    /// The greatest of the versions that satisfy the requirement.
    pub fn get_best_version(versions: &Vec<SemVer>, version_req: &Option<SemVerReq>) -> (r: Option<
        SemVer,
    >)
        ensures
            is_best_version(version_views(versions@), opt_req_view(*version_req), r),
    {
        let ghost vs = version_views(versions@);
        let ghost req = opt_req_view(*version_req);
        let n = versions.len();
        let mut best: Option<usize> = None;
        let mut i: usize = 0;
        while i < n
            invariant
                n == versions@.len(),
                vs == version_views(versions@),
                req == opt_req_view(*version_req),
                i <= n,
                best is None ==> forall|j: int| 0 <= j < i ==> !admits(req, #[trigger] vs[j]),
                forall|j: int| 0 <= j < i ==> is_semver(#[trigger] vs[j]),
                best matches Some(b) ==> {
                    &&& b < i
                    &&& admits(req, vs[b as int])
                    &&& forall|j: int|
                        0 <= j < i && admits(req, vs[j]) && vs[j] != vs[b as int] ==> semver_order(
                            #[trigger] vs[j],
                            vs[b as int],
                        ) != Order::Greater
                },
            decreases n - i,
        {
            let v = &versions[i];
            assert(vs[i as int] == v@);
            proof {
                use_type_invariant(v);
            }
            let ok = match version_req {
                None => true,
                Some(q) => q.matches(v),
            };
            if ok {
                match best {
                    None => {
                        best = Some(i);
                    },
                    Some(b) => {
                        let o = compare_semver(&versions[b], v);
                        match o {
                            Order::Greater => {},
                            _ => {
                                assert forall|j: int|
                                    0 <= j < i + 1 && admits(req, vs[j]) && vs[j] != vs[i as int] implies semver_order(
                                    #[trigger] vs[j],
                                    vs[i as int],
                                ) != Order::Greater by {
                                    if vs[j] != vs[b as int] {
                                        assert(semver_order(vs[j], vs[b as int]) != Order::Greater);
                                    }
                                }
                                best = Some(i);
                            },
                        }
                    },
                }
            }
            i = i + 1;
        }
        assert(vs.len() == n);
        let result = match best {
            None => None,
            Some(b) => Some(versions[b].clone()),
        };
        proof {
            match best {
                None => {
                    assert(none_admitted(vs, req));
                },
                Some(b) => {
                    assert(is_best_at(vs, req, b as int, result->0@));
                    assert(admits(req, vs[b as int]));
                },
            }
        }
        assert(is_best_version(vs, req, result));
        result
    }

    /// Sets the best version from the available versions and the
    /// requirement.
    pub fn update_best_version(&mut self)
        ensures
            is_best_version(
                version_views(old(self).available_versions@),
                opt_req_view(old(self).version_req),
                final(self).best_version,
            ),
            final(self).name == old(self).name,
            final(self).project == old(self).project,
            final(self).version_req == old(self).version_req,
            final(self).current_version == old(self).current_version,
            final(self).tag_prefix == old(self).tag_prefix,
            final(self).available_tags == old(self).available_tags,
            final(self).available_versions == old(self).available_versions,
    {
        self.best_version = Dep::get_best_version(&self.available_versions, &self.version_req);
    }
}

/// The text of an optional version: empty where there is none.
pub open spec fn opt_version_text(o: Option<SemVer>) -> Seq<char> {
    match o {
        Some(v) => version_text(v@),
        None => Seq::empty(),
    }
}

/// The line that gives a dependency's version: `NAME_GH_VERSION="version"`, the
/// name in ASCII upper case.
pub open spec fn version_line(name: Seq<char>, version: Seq<char>) -> Seq<char> {
    ascii_upper(name) + "_GH_VERSION=\""@ + version + "\""@
}

/// The texts of versions.
pub open spec fn version_texts(vs: Seq<SemVer>) -> Seq<Seq<char>> {
    vs.map_values(|v: SemVer| version_text(v@))
}

/// The report on a dependency: its name, project, previous version, tags and
/// versions as comment lines, then its version line.
pub open spec fn debug_text(d: Dep) -> Seq<char> {
    "# "@ + d.name@ + "\n# from "@ + d.project@ + "\n# previous version: "@ + opt_version_text(
        d.current_version,
    ) + "\n# with tags: "@ + join_seqs(views(d.available_tags@), ", "@) + "\n# with versions: "@
        + join_seqs(version_texts(d.available_versions@), ", "@) + "\n"@ + version_line(
        d.name@,
        opt_version_text(d.best_version),
    ) + "\n"@
}

/// The text written to the versions file: each dependency's version line,
/// ended by `\r\n`.
pub open spec fn outfile_text(deps: Seq<Dep>) -> Seq<char>
    decreases deps.len(),
{
    if deps.len() == 0 {
        Seq::empty()
    } else {
        outfile_text(deps.drop_last()) + version_line(
            deps.last().name@,
            opt_version_text(deps.last().best_version),
        ) + "\r\n"@
    }
}

fn version_text_or_empty(o: &Option<SemVer>) -> (r: String)
    ensures
        r@ == opt_version_text(*o),
{
    match o {
        Some(v) => v.to_string(),
        None => String::new(),
    }
}

fn texts_of(vs: &Vec<SemVer>) -> (r: Vec<String>)
    ensures
        views(r@) == version_texts(vs@),
{
    let mut r: Vec<String> = Vec::new();
    let n = vs.len();
    let mut i: usize = 0;
    while i < n
        invariant
            n == vs@.len(),
            i <= n,
            views(r@) =~= version_texts(vs@.take(i as int)),
        decreases n - i,
    {
        r.push(vs[i].to_string());
        assert(version_texts(vs@.take(i + 1)) =~= version_texts(vs@.take(i as int)).push(
            version_text(vs@[i as int]@),
        ));
        i = i + 1;
    }
    assert(vs@.take(n as int) =~= vs@);
    r
}

impl Dep {
    /// The version line of the dependency (its `Display`).
    pub fn fmt(&self) -> (r: String)
        ensures
            r@ == version_line(self.name@, opt_version_text(self.best_version)),
    {
        let mut r = to_ascii_uppercase(self.name.as_str());
        r.append("_GH_VERSION=\"");
        r.append(version_text_or_empty(&self.best_version).as_str());
        r.append("\"");
        r
    }

    /// The report on the dependency (its `Debug`).
    pub fn fmt_debug(&self) -> (r: String)
        ensures
            r@ == debug_text(*self),
    {
        let mut r = String::from_str("# ");
        r.append(self.name.as_str());
        r.append("\n# from ");
        r.append(self.project.as_str());
        r.append("\n# previous version: ");
        r.append(version_text_or_empty(&self.current_version).as_str());
        r.append("\n# with tags: ");
        r.append(join(&self.available_tags, ", ").as_str());
        r.append("\n# with versions: ");
        r.append(join(&texts_of(&self.available_versions), ", ").as_str());
        r.append("\n");
        r.append(self.fmt().as_str());
        r.append("\n");
        r
    }
}

/// The text of the versions file for the dependencies.
pub fn format_outfile(deps: &Vec<Dep>) -> (r: String)
    ensures
        r@ == outfile_text(deps@),
{
    let mut r = String::new();
    let n = deps.len();
    let mut i: usize = 0;
    while i < n
        invariant
            n == deps@.len(),
            i <= n,
            r@ == outfile_text(deps@.take(i as int)),
        decreases n - i,
    {
        assert(deps@.take(i + 1).drop_last() =~= deps@.take(i as int));
        r.append(deps[i].fmt().as_str());
        r.append("\r\n");
        i = i + 1;
    }
    assert(deps@.take(n as int) =~= deps@);
    r
}

} // verus!

use vstd::prelude::*;
use vstd::utf8::{decode_utf8, valid_utf8};
use crate::dep::{
    Dep, or_empty, is_best_version, made_from_table, opt_req_view, version_views, versions_from_tags,
};
use crate::table::{
    GhDepContainer, dep_name_of_key, dep_names, ghdep_key, is_project_key, key_views, keys_in_order,
    project_postfix, table_entries, text_value, well_formed_project_key,
};
use crate::laws::{lemma_dep_names_from_project_keys, project_keys};
use crate::depkey::DepKey;
use crate::tags::{
    GetTagsError, array_items, entry_names, json_parse, parse_tags_json, tags_error_text,
};
use crate::text::{
    all_ascii, ascii_lower, ascii_lower_char, ascii_upper,
    string_from_utf8, unicode_upper, utf8_error_message, views,
};

verus! {

/// A project key whose dependency's name reads back to it: `_` stands
/// before `GH_PROJECT`, and before that only ASCII characters other than
/// lower-case letters, as in `HYPER_GH_PROJECT`.
pub open spec fn upper_case_project_key(k: Seq<char>) -> bool {
    let p = k.take(k.len() - project_postfix().len() - 1);
    &&& is_project_key(k)
    &&& well_formed_project_key(k)
    &&& k[k.len() - project_postfix().len() - 1] == '_'
    &&& forall|j: int| 0 <= j < p.len() ==> (#[trigger] p[j] as u32) < 128 && !('a' <= p[j] && p[j] <= 'z')
}

/// The key under which the project of the dependency named after an
/// upper-case project key is looked up is that key itself.
proof fn lemma_upper_case_key_found(k: Seq<char>)
    requires
        upper_case_project_key(k),
        all_ascii(dep_name_of_key(k)) ==> unicode_upper(dep_name_of_key(k)) == ascii_upper(
            dep_name_of_key(k),
        ),
    ensures
        ghdep_key(dep_name_of_key(k), DepKey::Project) == k,
{
    let p = k.take(k.len() - project_postfix().len() - 1);
    let name = dep_name_of_key(k);
    assert(name == ascii_lower(p));
    assert forall|j: int| 0 <= j < name.len() implies (#[trigger] name[j] as u32) < 128 by {
        assert((p[j] as u32) < 128);
    }
    assert(ascii_upper(name) =~= p) by {
        assert forall|j: int| 0 <= j < p.len() implies ascii_upper(name)[j] == p[j] by {
            assert((p[j] as u32) < 128);
            assert(!('a' <= p[j] && p[j] <= 'z'));
            assert(name[j] == ascii_lower_char(p[j]));
        }
    }
    assert(k =~= p + seq!['_'] + project_postfix());
}

/// The dependencies of a configuration, in the order of their project keys,
/// each as the configuration describes it.
pub fn deps_from_config(config: &toml::Table) -> (r: Vec<Dep>)
    requires
        config.project_keys_ok(),
    ensures
        exists|keys: Seq<Seq<char>>|
            #[trigger] keys_in_order(keys, table_entries(*config)) && dep_names(keys).len()
                == r@.len() && forall|i: int|
                0 <= i < r@.len() ==> made_from_table(
                    table_entries(*config),
                    dep_names(keys)[i],
                    #[trigger] r@[i],
                ) && (upper_case_project_key(project_keys(keys)[i]) ==> r@[i].project@ == or_empty(
                    text_value(table_entries(*config), project_keys(keys)[i]),
                )),
{
    let names = config.get_all_deps();
    let ghost keys = choose|keys: Seq<Seq<char>>|
        keys_in_order(keys, table_entries(*config)) && #[trigger] dep_names(keys) == key_views(
            names@,
        );
    proof {
        lemma_dep_names_from_project_keys(keys);
        assert forall|k: Seq<char>| #[trigger] keys.contains(k) implies table_entries(
            *config,
        ).contains_key(k) by {
            assert(keys.to_set().contains(k));
        }
    }
    let mut r: Vec<Dep> = Vec::new();
    let n = names.len();
    let mut i: usize = 0;
    while i < n
        invariant
            n == names@.len(),
            dep_names(keys) == key_views(names@),
            r@.len() == i,
            i <= n,
            dep_names(keys) == project_keys(keys).map_values(|k: Seq<char>| dep_name_of_key(k)),
            forall|k: Seq<char>| #[trigger] keys.contains(k) ==> table_entries(*config).contains_key(k),
            forall|j: int|
                0 <= j < i ==> made_from_table(
                    table_entries(*config),
                    dep_names(keys)[j],
                    #[trigger] r@[j],
                ) && (upper_case_project_key(project_keys(keys)[j]) ==> r@[j].project@ == or_empty(
                    text_value(table_entries(*config), project_keys(keys)[j]),
                )),
        decreases n - i,
    {
        let d = Dep::from_table(config, names[i].as_str());
        assert(dep_names(keys)[i as int] == names@[i as int]@);
        proof {
            let k = project_keys(keys)[i as int];
            assert(dep_names(keys).len() == project_keys(keys).len());
            assert(dep_names(keys)[i as int] == dep_name_of_key(k));
            if upper_case_project_key(k) {
                lemma_upper_case_key_found(k);
            }
        }
        r.push(d);
        i = i + 1;
    }
    assert(keys_in_order(keys, table_entries(*config)));
    r
}

/// What the dependency `d` becomes once its versions and its best version
/// are set from `old`'s tags, prefix and requirement; all else stays.
pub open spec fn refreshed(old: Dep, d: Dep) -> bool {
    &&& version_views(d.available_versions@) == versions_from_tags(
        views(old.available_tags@),
        old.tag_prefix@,
    )
    &&& is_best_version(
        version_views(d.available_versions@),
        opt_req_view(old.version_req),
        d.best_version,
    )
    &&& d.name == old.name
    &&& d.project == old.project
    &&& d.version_req == old.version_req
    &&& d.current_version == old.current_version
    &&& d.tag_prefix == old.tag_prefix
    &&& d.available_tags == old.available_tags
}

/// Sets the available versions and then the best version of each
/// dependency.
pub fn refresh_deps(deps: &mut Vec<Dep>)
    ensures
        final(deps)@.len() == old(deps)@.len(),
        forall|i: int| 0 <= i < old(deps)@.len() ==> refreshed(old(deps)@[i], #[trigger] final(deps)@[i]),
{
    let n = deps.len();
    let mut done: Vec<Dep> = Vec::new();
    let ghost orig = deps@;
    while deps.len() > 0
        invariant
            n == orig.len(),
            done@.len() + deps@.len() == n,
            deps@ == orig.take(deps@.len() as int),
            forall|i: int|
                0 <= i < done@.len() ==> refreshed(
                    orig[n - 1 - i],
                    #[trigger] done@[i],
                ),
        decreases deps@.len(),
    {
        let k = deps.len();
        let mut d = deps.pop().unwrap();
        assert(d == orig[k - 1]);
        assert(deps@ =~= orig.take(k - 1));
        d.update_versions_from_tags();
        d.update_best_version();
        done.push(d);
    }
    while done.len() > 0
        invariant
            n == orig.len(),
            done@.len() + deps@.len() == n,
            forall|i: int|
                0 <= i < done@.len() ==> refreshed(
                    orig[n - 1 - i],
                    #[trigger] done@[i],
                ),
            forall|i: int| 0 <= i < deps@.len() ==> refreshed(orig[i], #[trigger] deps@[i]),
        decreases done@.len(),
    {
        let k = done.len();
        let d = done.pop().unwrap();
        assert(refreshed(orig[n - 1 - (k - 1)], d));
        deps.push(d);
    }
}

/// The error to report when updating the tags of some dependency failed:
/// `None` where every update succeeded, else all failures' messages.
pub open spec fn failures(results: Seq<Result<(), GetTagsError>>) -> Seq<GetTagsError>
    decreases results.len(),
{
    if results.len() == 0 {
        Seq::empty()
    } else {
        let rest = failures(results.drop_last());
        match results.last() {
            Ok(_) => rest,
            Err(e) => rest.push(e),
        }
    }
}

/// The error to report after updating the tags of all dependencies: `None`
/// where every update succeeded, else the messages of all failures, in order.
pub fn update_errors(results: &Vec<Result<(), GetTagsError>>) -> (r: Option<GetTagsError>)
    ensures
        r is None <==> failures(results@).len() == 0,
        r matches Some(e) ==> (e matches GetTagsError::MultipleGithubErrors(msgs) && msgs@.len()
            == failures(results@).len() && forall|k: int|
            0 <= k < msgs@.len() ==> #[trigger] msgs@[k]@ == tags_error_text(failures(results@)[k])),
{
    let mut msgs: Vec<String> = Vec::new();
    let n = results.len();
    let mut i: usize = 0;
    while i < n
        invariant
            n == results@.len(),
            i <= n,
            msgs@.len() == failures(results@.take(i as int)).len(),
            forall|k: int|
                0 <= k < msgs@.len() ==> #[trigger] msgs@[k]@ == tags_error_text(
                    failures(results@.take(i as int))[k],
                ),
        decreases n - i,
    {
        assert(results@.take(i + 1).drop_last() =~= results@.take(i as int));
        match &results[i] {
            Ok(_) => {},
            Err(e) => {
                let m = e.fmt();
                msgs.push(m);
            },
        }
        i = i + 1;
    }
    assert(results@.take(n as int) =~= results@);
    if msgs.len() == 0 {
        None
    } else {
        Some(GetTagsError::MultipleGithubErrors(msgs))
    }
}

/// The address of the tags of a GitHub project.
pub fn tags_url(project: &str) -> (r: String)
    ensures
        r@ == "https://api.github.com/repos/"@ + project@ + "/tags"@,
{
    let mut r = String::from_str("https://api.github.com/repos/");
    r.append(project);
    r.append("/tags");
    r
}

/// The value of the authorization header for a token.
pub fn bearer(token: &str) -> (r: String)
    ensures
        r@ == "Bearer "@ + token@,
{
    let mut r = String::from_str("Bearer ");
    r.append(token);
    r
}

/// The headers of a request for the tags of a project: the GitHub API's
/// media type, the token, the API version and the client's name.
pub open spec fn tags_headers(token: Seq<char>) -> Seq<(Seq<char>, Seq<char>)> {
    seq![
        ("Accept"@, "application/vnd.github+json"@),
        ("Authorization"@, "Bearer "@ + token),
        ("X-GitHub-Api-Version"@, "2022-11-28"@),
        ("User-Agent"@, "ghdepup/1.0"@),
    ]
}

pub open spec fn pair_views(ps: Seq<(String, String)>) -> Seq<(Seq<char>, Seq<char>)> {
    ps.map_values(|p: (String, String)| (p.0@, p.1@))
}

/// The headers of a request for the tags of a project, in order.
pub fn tags_request_headers(token: &str) -> (r: Vec<(String, String)>)
    ensures
        pair_views(r@) == tags_headers(token@),
{
    let mut r: Vec<(String, String)> = Vec::new();
    r.push((String::from_str("Accept"), String::from_str("application/vnd.github+json")));
    r.push((String::from_str("Authorization"), bearer(token)));
    r.push((String::from_str("X-GitHub-Api-Version"), String::from_str("2022-11-28")));
    r.push((String::from_str("User-Agent"), String::from_str("ghdepup/1.0")));
    assert(pair_views(r@) =~= tags_headers(token@));
    r
}

/// What a response's status decides: a successful status lets the body be
/// read, any other is an error that carries the status's text.
pub fn check_status(success: bool, status: String) -> (r: Result<(), GetTagsError>)
    ensures
        success ==> r is Ok,
        !success ==> (r matches Err(GetTagsError::HyperHttpStatusError(s)) && s@ == status@),
{
    if success {
        Ok(())
    } else {
        Err(GetTagsError::HyperHttpStatusError(status))
    }
}

/// The token as read from the environment, without its last character (the
/// line end); an empty token stays empty.
pub fn strip_token(token: &str) -> (r: String)
    ensures
        token@.len() == 0 ==> r@ == token@,
        token@.len() > 0 ==> r@ == token@.drop_last(),
{
    let n = token.unicode_len();
    if n == 0 {
        String::from_str(token)
    } else {
        let s = token.substring_char(0, n - 1);
        assert(s@ =~= token@.drop_last());
        String::from_str(s)
    }
}

/// The body of a response as text: an error where it is not UTF-8.
pub fn decode_response(body: Vec<u8>) -> (r: Result<String, GetTagsError>)
    ensures
        r is Ok <==> valid_utf8(body@),
        r matches Ok(s) ==> s@ == decode_utf8(body@),
        r matches Err(e) ==> (e matches GetTagsError::FromUtf8Error(m) && m@ == utf8_error_message(
            body@,
        )),
{
    match string_from_utf8(body) {
        Ok(s) => Ok(s),
        Err(e) => Err(GetTagsError::FromUtf8Error(e)),
    }
}

/// Sets the tags of a dependency from a response of the GitHub API; where
/// the response cannot be read, the dependency stays as it was.
pub fn update_tags_from_json(dep: &mut Dep, json: &str) -> (r: Result<(), GetTagsError>)
    ensures
        match json_parse(json@) {
            None => (r matches Err(e) && e is JsonParseError) && *final(dep) == *old(dep),
            Some(m) => match array_items(m) {
                None => (r matches Err(e) && e is ExpectedJsonArrayError) && *final(dep) == *old(
                    dep,
                ),
                Some(items) => r is Ok && views(final(dep).available_tags@) == entry_names(items)
                    && final(dep).name == old(dep).name && final(dep).project == old(dep).project
                    && final(dep).version_req == old(dep).version_req
                    && final(dep).current_version == old(dep).current_version
                    && final(dep).tag_prefix == old(dep).tag_prefix
                    && final(dep).available_versions == old(dep).available_versions
                    && final(dep).best_version == old(dep).best_version,
            },
        },
{
    match parse_tags_json(json) {
        Ok(tags) => {
            dep.available_tags = tags;
            Ok(())
        },
        Err(e) => Err(e),
    }
}

} // verus!

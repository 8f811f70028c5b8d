//! The WorkBuddy plugin registry under a configuration directory: where the
//! `my-experts` marketplace and its files live, how its manifest is merged
//! on install and pruned on uninstall without touching plugins that belong
//! to others, and the records written into `known_marketplaces.json` and
//! `installed_plugins.json`.
use vstd::prelude::*;
use crate::catalog::{entries_of, plugin_entries, PluginInfo};
use crate::clock::{iso_now, iso_timestamp};
use crate::json::{
    doc_of, field, fields_view, find_key, insert_member, insert_member_exec, into_items,
    into_members, items_view, jview, key_index, lemma_jview_parts, lemma_key_index, lookup,
    lookup_in, members_of, opt_jview, pretty_json, read_doc, render, str_json, take_field, Json, JsonV,
};
use crate::text::{contains_text, join, join_path, owned, push_str, with_extension, with_extension_spec};

verus! {

broadcast use vstd::string::group_string_axioms;

/// The name of the marketplace that this installer owns.
pub open spec fn marketplace_name_spec() -> Seq<char> {
    "my-experts"@
}

/// The name of the marketplace that this installer owns.
pub fn marketplace_name() -> (r: &'static str)
    ensures
        r@ == marketplace_name_spec(),
{
    "my-experts"
}

/// The marketplace manifest under `config_dir`.
pub open spec fn manifest_file(config_dir: Seq<char>) -> Seq<char> {
    join_path(config_dir, "plugins/marketplaces/my-experts/.codebuddy-plugin/marketplace.json"@)
}

/// `known_marketplaces.json` under `config_dir`.
pub open spec fn known_file(config_dir: Seq<char>) -> Seq<char> {
    join_path(config_dir, "plugins/known_marketplaces.json"@)
}

/// `installed_plugins.json` under `config_dir`.
pub open spec fn installed_file(config_dir: Seq<char>) -> Seq<char> {
    join_path(config_dir, "plugins/installed_plugins.json"@)
}

/// The files and directories of the registry under a configuration directory.
pub struct RegistryPaths {
    /// `plugins/marketplaces/my-experts`.
    pub marketplace_dir: String,
    /// `plugins/marketplaces/my-experts/plugins`, one directory per plugin.
    pub plugins_dir: String,
    /// `plugins/cache/my-experts`, one directory per plugin and version.
    pub cache_root: String,
    /// The marketplace manifest.
    pub manifest: String,
    /// `plugins/known_marketplaces.json`.
    pub known_marketplaces: String,
    /// `plugins/installed_plugins.json`.
    pub installed_plugins: String,
}

/// `p` lays the registry out under `config_dir`.
pub open spec fn lays_out(p: RegistryPaths, config_dir: Seq<char>) -> bool {
    &&& p.marketplace_dir@ == join_path(config_dir, "plugins/marketplaces/my-experts"@)
    &&& p.plugins_dir@ == join_path(config_dir, "plugins/marketplaces/my-experts/plugins"@)
    &&& p.cache_root@ == join_path(config_dir, "plugins/cache/my-experts"@)
    &&& p.manifest@ == manifest_file(config_dir)
    &&& p.known_marketplaces@ == known_file(config_dir)
    &&& p.installed_plugins@ == installed_file(config_dir)
}

/// The registry's files and directories under `config_dir`.
pub fn registry_paths(config_dir: &str) -> (r: RegistryPaths)
    ensures
        lays_out(r, config_dir@),
{
    RegistryPaths {
        marketplace_dir: join(config_dir, "plugins/marketplaces/my-experts"),
        plugins_dir: join(config_dir, "plugins/marketplaces/my-experts/plugins"),
        cache_root: join(config_dir, "plugins/cache/my-experts"),
        manifest: join(config_dir, "plugins/marketplaces/my-experts/.codebuddy-plugin/marketplace.json"),
        known_marketplaces: join(config_dir, "plugins/known_marketplaces.json"),
        installed_plugins: join(config_dir, "plugins/installed_plugins.json"),
    }
}

/// The marketplace manifest of the experts tree `experts`.
pub fn source_manifest_path(experts: &str) -> (r: String)
    ensures
        r@ == join_path(experts@, ".codebuddy-plugin/marketplace.json"@),
{
    join(experts, ".codebuddy-plugin/marketplace.json")
}

/// The `plugin.json` of the plugin in directory `plugin_dir`.
pub fn plugin_manifest_path(plugin_dir: &str) -> (r: String)
    ensures
        r@ == join_path(plugin_dir@, ".codebuddy-plugin/plugin.json"@),
{
    join(plugin_dir, ".codebuddy-plugin/plugin.json")
}

/// The avatar files of the plugin in `plugin_dir`, team avatar first.
pub fn avatar_paths(plugin_dir: &str) -> (r: (String, String))
    ensures
        r.0@ == join_path(plugin_dir@, "avatars/team.png"@),
        r.1@ == join_path(plugin_dir@, "avatars/expert.png"@),
{
    (join(plugin_dir, "avatars/team.png"), join(plugin_dir, "avatars/expert.png"))
}

/// The directory into which version `version` of plugin `name` is cached.
pub open spec fn cache_dir_spec(config_dir: Seq<char>, name: Seq<char>, version: Seq<char>) -> Seq<char> {
    join_path(join_path(join_path(config_dir, "plugins/cache/my-experts"@), name), version)
}

/// A plugin directory to copy into the marketplace and into the cache.
pub struct CopyJob {
    pub from: String,
    pub to_marketplace: String,
    pub to_cache: String,
}

/// `j` copies plugin `p` into the registry under `config_dir`.
pub open spec fn copies(j: CopyJob, p: PluginInfo, config_dir: Seq<char>) -> bool {
    &&& j.from@ == p.plugin_path@
    &&& j.to_marketplace@ == join_path(
        join_path(config_dir, "plugins/marketplaces/my-experts/plugins"@),
        p.name@,
    )
    &&& j.to_cache@ == cache_dir_spec(config_dir, p.name@, p.version@)
}

/// The directory copies that installing `selected` makes, plugin by plugin.
pub fn copy_jobs(selected: &Vec<PluginInfo>, config_dir: &str) -> (r: Vec<CopyJob>)
    ensures
        r@.len() == selected@.len(),
        forall|i: int| 0 <= i < r@.len() ==> #[trigger] copies(r@[i], selected@[i], config_dir@),
{
    let paths = registry_paths(config_dir);
    let mut r: Vec<CopyJob> = Vec::new();
    let mut i: usize = 0;
    while i < selected.len()
        invariant
            i <= selected@.len(),
            lays_out(paths, config_dir@),
            r@.len() == i,
            forall|k: int| 0 <= k < i ==> #[trigger] copies(r@[k], selected@[k], config_dir@),
        decreases selected@.len() - i,
    {
        let p = &selected[i];
        let cache = join(paths.cache_root.as_str(), p.name.as_str());
        r.push(
            CopyJob {
                from: owned(p.plugin_path.as_str()),
                to_marketplace: join(paths.plugins_dir.as_str(), p.name.as_str()),
                to_cache: join(cache.as_str(), p.version.as_str()),
            },
        );
        i = i + 1;
    }
    r
}

/// The `installed_plugins.json` key of plugin `name`.
pub open spec fn installed_key_spec(name: Seq<char>) -> Seq<char> {
    name + "@my-experts"@
}

/// The `installed_plugins.json` key of plugin `name`.
pub fn installed_key(name: &str) -> (r: String)
    ensures
        r@ == installed_key_spec(name@),
{
    let mut r = owned(name);
    push_str(&mut r, "@my-experts");
    r
}

/// The `installed_plugins.json` record of an installed plugin.
pub struct InstalledRecord {
    pub key: String,
    pub install_path: String,
    pub version: String,
    pub installed_at: String,
    pub last_updated: String,
}

/// `r` is the record of plugin `p` installed under `config_dir`, stamped
/// with some instant.
pub open spec fn records(r: InstalledRecord, p: PluginInfo, config_dir: Seq<char>) -> bool {
    &&& r.key@ == installed_key_spec(p.name@)
    &&& r.install_path@ == cache_dir_spec(config_dir, p.name@, p.version@)
    &&& r.version@ == p.version@
    &&& exists|t: i64| r.installed_at@ == #[trigger] iso_timestamp(t as int)
    &&& exists|t: i64| r.last_updated@ == #[trigger] iso_timestamp(t as int)
}

/// The record of plugin `p` installed under `config_dir`, stamped with the
/// current time.
pub fn installed_record(p: &PluginInfo, config_dir: &str) -> (r: InstalledRecord)
    ensures
        records(r, *p, config_dir@),
{
    let paths = registry_paths(config_dir);
    let cache = join(paths.cache_root.as_str(), p.name.as_str());
    InstalledRecord {
        key: installed_key(p.name.as_str()),
        install_path: join(cache.as_str(), p.version.as_str()),
        version: owned(p.version.as_str()),
        installed_at: iso_now(),
        last_updated: iso_now(),
    }
}

/// The records of the plugins `selected` installed under `config_dir`, in order.
pub fn installed_records(selected: &Vec<PluginInfo>, config_dir: &str) -> (r: Vec<InstalledRecord>)
    ensures
        r@.len() == selected@.len(),
        forall|i: int| 0 <= i < r@.len() ==> #[trigger] records(r@[i], selected@[i], config_dir@),
{
    let mut r: Vec<InstalledRecord> = Vec::new();
    let mut i: usize = 0;
    while i < selected.len()
        invariant
            i <= selected@.len(),
            r@.len() == i,
            forall|j: int| 0 <= j < i ==> #[trigger] records(r@[j], selected@[j], config_dir@),
        decreases selected@.len() - i,
    {
        r.push(installed_record(&selected[i], config_dir));
        i = i + 1;
    }
    r
}

/// The `known_marketplaces.json` record of the `my-experts` marketplace.
pub struct KnownMarketplace {
    pub manifest_name: String,
    pub kind: String,
    pub path: String,
    pub description: String,
    pub last_updated: String,
    pub auto_update: bool,
}

/// The record of the marketplace under `config_dir`, stamped with the
/// current time: a directory marketplace at the marketplace directory,
/// never auto-updated.
pub fn known_marketplace(config_dir: &str) -> (r: KnownMarketplace)
    ensures
        r.manifest_name@ == marketplace_name_spec(),
        r.kind@ == "directory"@,
        r.path@ == join_path(config_dir@, "plugins/marketplaces/my-experts"@),
        r.description@ == "Marketplace from "@ + r.path@,
        exists|t: i64| r.last_updated@ == #[trigger] iso_timestamp(t as int),
        !r.auto_update,
{
    let paths = registry_paths(config_dir);
    let mut description = owned("Marketplace from ");
    push_str(&mut description, paths.marketplace_dir.as_str());
    KnownMarketplace {
        manifest_name: owned(marketplace_name()),
        kind: owned("directory"),
        path: paths.marketplace_dir,
        description,
        last_updated: iso_now(),
        auto_update: false,
    }
}

/// What uninstalling plugin `name` from under `config_dir` removes: its
/// marketplace directory and its cache directory.
pub fn uninstall_paths(config_dir: &str, name: &str) -> (r: (String, String))
    ensures
        r.0@ == join_path(join_path(config_dir@, "plugins/marketplaces/my-experts/plugins"@), name@),
        r.1@ == join_path(join_path(config_dir@, "plugins/cache/my-experts"@), name@),
{
    let paths = registry_paths(config_dir);
    (join(paths.plugins_dir.as_str(), name), join(paths.cache_root.as_str(), name))
}


/// A registry file to rewrite: it is first copied to `backup` (when it is a
/// file), then `contents` is written to `path`.
pub struct FileUpdate {
    pub path: String,
    pub backup: String,
    pub contents: String,
}

/// The extension of a registry file's backup copy.
pub open spec fn backup_extension() -> Seq<char> {
    "json.bak-agentbuddy"@
}

/// Where the registry file `path` is backed up before it is rewritten.
pub fn backup_path(path: &str) -> (r: String)
    ensures
        r@ == with_extension_spec(path@, backup_extension()),
{
    proof {
        reveal_strlit("json.bak-agentbuddy");
    }
    with_extension(path, "json.bak-agentbuddy")
}

/// `u` rewrites the file `path`, backed up first, with the pretty-printed
/// document `doc`.
pub open spec fn rewrites(u: FileUpdate, path: Seq<char>, doc: JsonV) -> bool {
    &&& u.path@ == path
    &&& u.backup@ == with_extension_spec(path, backup_extension())
    &&& u.contents@ == pretty_json(doc)
}

fn file_update(path: String, doc: &Json) -> (r: FileUpdate)
    ensures
        rewrites(r, path@, jview(*doc)),
{
    let backup = backup_path(path.as_str());
    FileUpdate { path, backup, contents: render(doc) }
}

/// Whether some name of `names` is `n`.
pub open spec fn listed(names: Seq<String>, n: Seq<char>) -> bool {
    exists|i: int| 0 <= i < names.len() && #[trigger] names[i]@ == n
}

/// Whether the manifest entry `e` is that of a plugin named in `names`: its
/// `name` is a string among them.
pub open spec fn is_selected(names: Seq<String>, e: JsonV) -> bool {
    match lookup(e, "name"@) {
        Some(JsonV::Str(n)) => listed(names, n),
        _ => false,
    }
}

/// The entries of the plugins named in `names`.
pub open spec fn chosen(names: Seq<String>) -> spec_fn(JsonV) -> bool {
    |e: JsonV| is_selected(names, e)
}

/// The entries of all other plugins.
pub open spec fn foreign(names: Seq<String>) -> spec_fn(JsonV) -> bool {
    |e: JsonV| !is_selected(names, e)
}

/// A manifest entry counts as that of a plugin asked for exactly when its
/// `name` is a string equal to one of the names: an entry whose name only
/// begins with such a name is another plugin's.
pub proof fn selection_by_exact_name(names: Seq<String>, e: JsonV)
    ensures
        is_selected(names, e) <==> exists|i: int|
            0 <= i < names.len() && lookup(e, "name"@) == Some(JsonV::Str(#[trigger] names[i]@)),
        chosen(names)(e) == is_selected(names, e),
        foreign(names)(e) == !is_selected(names, e),
{
    if is_selected(names, e) {
        let n = lookup(e, "name"@)->0->Str_0;
        let i = choose|i: int| 0 <= i < names.len() && #[trigger] names[i]@ == n;
        assert(lookup(e, "name"@) == Some(JsonV::Str(names[i]@)));
    }
    if exists|i: int| 0 <= i < names.len() && lookup(e, "name"@) == Some(JsonV::Str(#[trigger] names[i]@)) {
        let i = choose|i: int|
            0 <= i < names.len() && lookup(e, "name"@) == Some(JsonV::Str(#[trigger] names[i]@));
        assert(listed(names, names[i]@));
    }
}

/// A record of `installed_plugins.json` is dropped on uninstall exactly when
/// its key is `<name>@my-experts` for one of the names.
pub proof fn record_kept_unless_named(names: Seq<String>, m: (Seq<char>, JsonV))
    ensures
        kept_record(names)(m) <==> forall|i: int|
            0 <= i < names.len() ==> m.0 != #[trigger] names[i]@ + "@my-experts"@,
{
    if kept_record(names)(m) {
        assert forall|i: int| 0 <= i < names.len() implies m.0 != #[trigger] names[i]@ + "@my-experts"@ by {
            if m.0 == names[i]@ + "@my-experts"@ {
                assert(installed_key_spec(names[i]@) == m.0);
            }
        }
    } else {
        let i = choose|i: int| 0 <= i < names.len() && #[trigger] installed_key_spec(names[i]@) == m.0;
        assert(m.0 == names[i]@ + "@my-experts"@);
    }
}

/// The marketplace manifest listing `plugins`.
pub open spec fn manifest_doc(plugins: Seq<JsonV>) -> JsonV {
    JsonV::Object(seq![("name"@, JsonV::Str(marketplace_name_spec())), ("plugins"@, JsonV::Array(plugins))])
}

/// The marketplace manifest after installing `names`, where `existing` is
/// the installed manifest and `source` that of the experts tree: the
/// existing entries of other plugins in their order, then the source
/// entries of the plugins installed.
pub open spec fn installed_manifest(existing: Option<JsonV>, source: Option<JsonV>, names: Seq<String>) -> JsonV {
    manifest_doc(
        plugin_entries(existing).filter(foreign(names)) + plugin_entries(source).filter(chosen(names)),
    )
}

/// The marketplace manifest after uninstalling `names`, where `existing` is
/// the installed manifest (the empty manifest where it cannot be read): its
/// `plugins` array without their entries, and nothing written where it has
/// no such array.
pub open spec fn uninstalled_manifest(existing: Option<JsonV>, names: Seq<String>) -> Option<JsonV> {
    let doc = match existing {
        Some(d) => d,
        None => manifest_doc(seq![]),
    };
    match (doc, lookup(doc, "plugins"@)) {
        (JsonV::Object(fields), Some(JsonV::Array(items))) => Some(
            JsonV::Object(
                fields.update(
                    key_index(fields, "plugins"@)->0,
                    ("plugins"@, JsonV::Array(items.filter(foreign(names)))),
                ),
            ),
        ),
        _ => None,
    }
}

fn entry_selected(e: &Json, names: &Vec<String>) -> (r: bool)
    ensures
        r == is_selected(names@, jview(*e)),
{
    match field(e, "name") {
        Some(Json::Str(n)) => contains_text(names, n.as_str()),
        _ => false,
    }
}

/// Moves the entries of `items` that `keep` asks for (those of the plugins
/// named in `names`, or all others) to the end of `out`, in order.
fn filter_into(out: &mut Vec<Json>, items: Vec<Json>, names: &Vec<String>, keep: bool)
    ensures
        items_view(final(out)@) == items_view(old(out)@) + items_view(items@).filter(
            if keep {
                chosen(names@)
            } else {
                foreign(names@)
            },
        ),
{
    let ghost p = if keep {
        chosen(names@)
    } else {
        foreign(names@)
    };
    let ghost all = items_view(items@);
    let ghost start = items_view(out@);
    let mut items = items;
    let ghost mut taken: int = 0;
    while items.len() > 0
        invariant
            0 <= taken <= all.len(),
            items_view(items@) == all.skip(taken),
            items_view(out@) == start + all.take(taken).filter(p),
            p == (if keep {
                chosen(names@)
            } else {
                foreign(names@)
            }),
        decreases items@.len(),
    {
        let ghost rest = items@;
        let e = items.remove(0);
        let sel = entry_selected(&e, names);
        proof {
            assert(items_view(rest).len() == rest.len());
            assert(all.skip(taken)[0] == all[taken]);
            assert(items_view(rest)[0] == jview(e));
            assert(jview(e) == all[taken]);
            assert(all.take(taken + 1) =~= all.take(taken).push(all[taken]));
            all.take(taken).lemma_filter_push(all[taken], p);
        }
        let ghost before = out@;
        if sel == keep {
            out.push(e);
            assert(items_view(out@) =~= items_view(before).push(all[taken]));
        }
        proof {
            assert forall|k: int| 0 <= k < items@.len() implies #[trigger] items_view(items@)[k]
                == all.skip(taken + 1)[k] by {
                assert(items@[k] == rest[k + 1]);
                assert(items_view(rest)[k + 1] == all.skip(taken)[k + 1]);
            }
            assert(items_view(items@) =~= all.skip(taken + 1));
            taken = taken + 1;
        }
    }
    assert(all.take(taken) =~= all);
}

fn manifest_json(plugins: Vec<Json>) -> (r: Json)
    ensures
        jview(r) == manifest_doc(items_view(plugins@)),
{
    let r = Json::Object(
        vec![
            (owned("name"), Json::Str(owned(marketplace_name()))),
            (owned("plugins"), Json::Array(plugins)),
        ],
    );
    proof {
        lemma_jview_parts(r);
        lemma_jview_parts(Json::Array(plugins));
        assert(fields_view(r->Object_0@) =~= manifest_doc(items_view(plugins@))->Object_0);
    }
    r
}

/// The marketplace manifest file under `config_dir` as installing `names`
/// rewrites it; `existing` and `source` are the texts of the installed
/// manifest and of the experts tree's (`None` where a file could not be read).
pub fn manifest_on_install(
    config_dir: &str,
    existing: Option<&str>,
    source: Option<&str>,
    names: &Vec<String>,
) -> (r: FileUpdate)
    ensures
        rewrites(
            r,
            manifest_file(config_dir@),
            installed_manifest(doc_of(existing), doc_of(source), names@),
        ),
{
    let doc = manifest_after_install(read_doc(existing), read_doc(source), names);
    file_update(registry_paths(config_dir).manifest, &doc)
}

/// The marketplace manifest after installing `names`, where `existing` is the
/// installed manifest and `source` that of the experts tree (`None` where
/// there is none).
pub fn manifest_after_install(existing: Option<Json>, source: Option<Json>, names: &Vec<String>) -> (r: Json)
    ensures
        jview(r) == installed_manifest(opt_jview(existing), opt_jview(source), names@),
{
    let mut plugins: Vec<Json> = Vec::new();
    assert(items_view(plugins@) =~= seq![]);
    filter_into(&mut plugins, entries_of(existing), names, false);
    filter_into(&mut plugins, entries_of(source), names, true);
    manifest_json(plugins)
}


fn empty_manifest() -> (r: Json)
    ensures
        jview(r) == manifest_doc(seq![]),
{
    let plugins: Vec<Json> = Vec::new();
    assert(items_view(plugins@) =~= seq![]);
    manifest_json(plugins)
}

/// The marketplace manifest file under `config_dir` as uninstalling `names`
/// rewrites it, `existing` being its text (`None` where it could not be
/// read); `None` where it has no `plugins` array, and nothing is written.
pub fn manifest_on_uninstall(config_dir: &str, existing: Option<&str>, names: &Vec<String>) -> (r:
    Option<FileUpdate>)
    ensures
        match uninstalled_manifest(doc_of(existing), names@) {
            Some(doc) => r is Some && rewrites(r->0, manifest_file(config_dir@), doc),
            None => r is None,
        },
{
    match manifest_after_uninstall(read_doc(existing), names) {
        Some(doc) => Some(file_update(registry_paths(config_dir).manifest, &doc)),
        None => None,
    }
}

/// The marketplace manifest after uninstalling `names`, where `existing` is
/// the installed manifest (`None` where there is none); `None` where it has
/// no `plugins` array.
pub fn manifest_after_uninstall(existing: Option<Json>, names: &Vec<String>) -> (r: Option<Json>)
    ensures
        match uninstalled_manifest(opt_jview(existing), names@) {
            Some(doc) => r is Some && jview(r->0) == doc,
            None => r is None,
        },
{
    let doc = match existing {
        Some(d) => d,
        None => empty_manifest(),
    };
    proof {
        lemma_jview_parts(doc);
    }
    match doc {
        Json::Object(mut fields) => match find_key(&fields, "plugins") {
            Some(k) => {
                let ghost fv = fields_view(fields@);
                proof {
                    lemma_key_index(fv, "plugins"@);
                }
                let (key, value) = fields.remove(k);
                proof {
                    lemma_jview_parts(value);
                }
                match value {
                    Json::Array(items) => {
                        let mut kept: Vec<Json> = Vec::new();
                        assert(items_view(kept@) =~= seq![]);
                        filter_into(&mut kept, items, names, false);
                        let ghost entry = (key@, JsonV::Array(items_view(kept@)));
                        fields.insert(k, (key, Json::Array(kept)));
                        proof {
                            lemma_jview_parts(Json::Array(kept));
                            assert(fields_view(fields@) =~= fv.update(k as int, entry));
                        }
                        let doc = Json::Object(fields);
                        proof {
                            lemma_jview_parts(doc);
                        }
                        Some(doc)
                    },
                    _ => None,
                }
            },
            None => None,
        },
        _ => None,
    }
}

/// The `known_marketplaces.json` entry for the marketplace record `rec`.
pub open spec fn marketplace_entry(rec: KnownMarketplace) -> JsonV {
    JsonV::Object(
        seq![
            ("manifestName"@, JsonV::Str(rec.manifest_name@)),
            ("type"@, JsonV::Str(rec.kind@)),
            (
                "source"@,
                JsonV::Object(seq![("source"@, JsonV::Str(rec.kind@)), ("path"@, JsonV::Str(rec.path@))]),
            ),
            ("installLocation"@, JsonV::Str(rec.path@)),
            ("description"@, JsonV::Str(rec.description@)),
            ("lastUpdated"@, JsonV::Str(rec.last_updated@)),
            ("autoUpdate"@, JsonV::Bool(rec.auto_update)),
        ],
    )
}

/// `known_marketplaces.json` after installing, `existing` being its document
/// (an empty object where it cannot be read): the record set under its name
/// among the other marketplaces; `None` where the document is no object.
pub open spec fn known_after_install(existing: Option<JsonV>, rec: KnownMarketplace) -> Option<JsonV> {
    match existing {
        None => Some(JsonV::Object(insert_member(seq![], rec.manifest_name@, marketplace_entry(rec)))),
        Some(JsonV::Object(fields)) => Some(
            JsonV::Object(insert_member(fields, rec.manifest_name@, marketplace_entry(rec))),
        ),
        Some(_) => None,
    }
}

fn marketplace_json(rec: &KnownMarketplace) -> (r: Json)
    ensures
        jview(r) == marketplace_entry(*rec),
{
    let source = Json::Object(
        vec![(owned("source"), str_json(rec.kind.as_str())), (owned("path"), str_json(rec.path.as_str()))],
    );
    proof {
        lemma_jview_parts(source);
        assert(fields_view(source->Object_0@) =~= marketplace_entry(*rec)->Object_0[2].1->Object_0);
    }
    let r = Json::Object(
        vec![
            (owned("manifestName"), str_json(rec.manifest_name.as_str())),
            (owned("type"), str_json(rec.kind.as_str())),
            (owned("source"), source),
            (owned("installLocation"), str_json(rec.path.as_str())),
            (owned("description"), str_json(rec.description.as_str())),
            (owned("lastUpdated"), str_json(rec.last_updated.as_str())),
            (owned("autoUpdate"), Json::Bool(rec.auto_update)),
        ],
    );
    proof {
        lemma_jview_parts(r);
        assert(fields_view(r->Object_0@) =~= marketplace_entry(*rec)->Object_0);
    }
    r
}

/// `known_marketplaces.json` under `config_dir` as installing rewrites it
/// with the record `rec`, `existing` being its text (`None` where it could
/// not be read); `None` where it holds JSON that is no object.
pub fn known_on_install(config_dir: &str, existing: Option<&str>, rec: &KnownMarketplace) -> (r: Option<
    FileUpdate,
>)
    ensures
        match known_after_install(doc_of(existing), *rec) {
            Some(doc) => r is Some && rewrites(r->0, known_file(config_dir@), doc),
            None => r is None,
        },
{
    match known_after(read_doc(existing), rec) {
        Some(doc) => Some(file_update(registry_paths(config_dir).known_marketplaces, &doc)),
        None => None,
    }
}

/// `known_marketplaces.json` after installing with the record `rec`, where
/// `existing` is its document (`None` where there is none); `None` where it
/// is no object.
pub fn known_after(existing: Option<Json>, rec: &KnownMarketplace) -> (r: Option<Json>)
    ensures
        match known_after_install(opt_jview(existing), *rec) {
            Some(doc) => r is Some && jview(r->0) == doc,
            None => r is None,
        },
{
    let mut fields: Vec<(String, Json)> = match existing {
        None => {
            let f: Vec<(String, Json)> = Vec::new();
            assert(fields_view(f@) =~= seq![]);
            f
        },
        Some(doc) => {
            proof {
                lemma_jview_parts(doc);
            }
            match doc {
                Json::Object(f) => f,
                _ => {
                    return None;
                },
            }
        },
    };
    insert_member_exec(&mut fields, owned(rec.manifest_name.as_str()), marketplace_json(rec));
    let doc = Json::Object(fields);
    proof {
        lemma_jview_parts(doc);
    }
    Some(doc)
}

/// The `installed_plugins.json` value of the record `r`.
pub open spec fn record_entry(r: InstalledRecord) -> JsonV {
    JsonV::Array(
        seq![
            JsonV::Object(
                seq![
                    ("scope"@, JsonV::Str("user"@)),
                    ("installPath"@, JsonV::Str(r.install_path@)),
                    ("version"@, JsonV::Str(r.version@)),
                    ("installedAt"@, JsonV::Str(r.installed_at@)),
                    ("lastUpdated"@, JsonV::Str(r.last_updated@)),
                ],
            ),
        ],
    )
}

/// The members of the `plugins` object with the records set one after the
/// other, each under its key.
pub open spec fn with_records(fields: Seq<(Seq<char>, JsonV)>, records: Seq<InstalledRecord>) -> Seq<
    (Seq<char>, JsonV),
>
    decreases records.len(),
{
    if records.len() == 0 {
        fields
    } else {
        insert_member(
            with_records(fields, records.drop_last()),
            records.last().key@,
            record_entry(records.last()),
        )
    }
}

/// The `installed_plugins.json` document with the plugins object `plugins`.
pub open spec fn installed_doc(plugins: Seq<(Seq<char>, JsonV)>) -> JsonV {
    JsonV::Object(seq![("version"@, JsonV::Number("2"@)), ("plugins"@, JsonV::Object(plugins))])
}

/// `installed_plugins.json` after installing the plugins with records
/// `records`, `existing` being its document: version 2, and the plugins
/// object that was there (an empty one where there was none) with the
/// records set.
pub open spec fn installed_after_install(existing: Option<JsonV>, records: Seq<InstalledRecord>) -> JsonV {
    installed_doc(with_records(members_of(lookup_in(existing, "plugins"@)), records))
}

fn record_json(r: &InstalledRecord) -> (j: Json)
    ensures
        jview(j) == record_entry(*r),
{
    let o = Json::Object(
        vec![
            (owned("scope"), str_json("user")),
            (owned("installPath"), str_json(r.install_path.as_str())),
            (owned("version"), str_json(r.version.as_str())),
            (owned("installedAt"), str_json(r.installed_at.as_str())),
            (owned("lastUpdated"), str_json(r.last_updated.as_str())),
        ],
    );
    proof {
        reveal_strlit("user");
        lemma_jview_parts(o);
        assert(fields_view(o->Object_0@) =~= record_entry(*r)->Array_0[0]->Object_0);
    }
    let j = Json::Array(vec![o]);
    proof {
        lemma_jview_parts(j);
        assert(items_view(j->Array_0@) =~= record_entry(*r)->Array_0);
    }
    j
}

fn installed_json(plugins: Vec<(String, Json)>) -> (r: Json)
    ensures
        jview(r) == installed_doc(fields_view(plugins@)),
{
    let p = Json::Object(plugins);
    proof {
        lemma_jview_parts(p);
    }
    let r = Json::Object(vec![(owned("version"), Json::Number(owned("2"))), (owned("plugins"), p)]);
    proof {
        lemma_jview_parts(r);
        assert(fields_view(r->Object_0@) =~= installed_doc(fields_view(plugins@))->Object_0);
    }
    r
}

/// `installed_plugins.json` under `config_dir` as installing the plugins
/// with records `records` rewrites it, `existing` being its text (`None`
/// where it could not be read).
pub fn installed_on_install(config_dir: &str, existing: Option<&str>, records: &Vec<InstalledRecord>) -> (r:
    FileUpdate)
    ensures
        rewrites(r, installed_file(config_dir@), installed_after_install(doc_of(existing), records@)),
{
    let doc = installed_after_records(read_doc(existing), records);
    file_update(registry_paths(config_dir).installed_plugins, &doc)
}

/// `installed_plugins.json` after installing the plugins with records
/// `records`, where `existing` is its document (`None` where there is none).
pub fn installed_after_records(existing: Option<Json>, records: &Vec<InstalledRecord>) -> (r: Json)
    ensures
        jview(r) == installed_after_install(opt_jview(existing), records@),
{
    let mut members = match existing {
        Some(doc) => into_members(take_field(doc, "plugins")),
        None => into_members(None),
    };
    let ghost start = fields_view(members@);
    assert(start == members_of(lookup_in(opt_jview(existing), "plugins"@)));
    let mut i: usize = 0;
    while i < records.len()
        invariant
            i <= records@.len(),
            fields_view(members@) == with_records(start, records@.take(i as int)),
        decreases records@.len() - i,
    {
        assert(records@.take(i + 1).drop_last() =~= records@.take(i as int));
        assert(records@.take(i + 1).last() == records@[i as int]);
        let rec = &records[i];
        insert_member_exec(&mut members, owned(rec.key.as_str()), record_json(rec));
        i = i + 1;
    }
    assert(records@.take(records@.len() as int) =~= records@);
    installed_json(members)
}


/// Whether `k` is the `installed_plugins.json` key of one of `names`.
pub open spec fn listed_key(names: Seq<String>, k: Seq<char>) -> bool {
    exists|i: int| 0 <= i < names.len() && #[trigger] installed_key_spec(names[i]@) == k
}

/// The members of the plugins object that stay when `names` are uninstalled.
pub open spec fn kept_record(names: Seq<String>) -> spec_fn((Seq<char>, JsonV)) -> bool {
    |m: (Seq<char>, JsonV)| !listed_key(names, m.0)
}

/// `installed_plugins.json` after uninstalling `names`, `existing` being its
/// document (version 2 with an empty plugins object where it cannot be
/// read): the records of `names` dropped from its plugins object, and the
/// document as it was where it has no such object.
pub open spec fn installed_after_uninstall(existing: Option<JsonV>, names: Seq<String>) -> JsonV {
    let doc = match existing {
        Some(d) => d,
        None => installed_doc(seq![]),
    };
    match (doc, lookup(doc, "plugins"@)) {
        (JsonV::Object(fields), Some(JsonV::Object(members))) => JsonV::Object(
            fields.update(
                key_index(fields, "plugins"@)->0,
                ("plugins"@, JsonV::Object(members.filter(kept_record(names)))),
            ),
        ),
        _ => doc,
    }
}

fn keys_of(names: &Vec<String>) -> (r: Vec<String>)
    ensures
        r@.len() == names@.len(),
        forall|i: int| 0 <= i < names@.len() ==> #[trigger] r@[i]@ == installed_key_spec(names@[i]@),
{
    let mut r: Vec<String> = Vec::new();
    let mut i: usize = 0;
    while i < names.len()
        invariant
            i <= names@.len(),
            r@.len() == i,
            forall|j: int| 0 <= j < i ==> #[trigger] r@[j]@ == installed_key_spec(names@[j]@),
        decreases names@.len() - i,
    {
        r.push(installed_key(names[i].as_str()));
        i = i + 1;
    }
    r
}

/// Moves the members of `members` that are no record of `names` to the end
/// of `out`, in order; `keys` are the keys of `names`.
fn keep_records_into(
    out: &mut Vec<(String, Json)>,
    members: Vec<(String, Json)>,
    names: &Vec<String>,
    keys: &Vec<String>,
)
    requires
        keys@.len() == names@.len(),
        forall|i: int| 0 <= i < names@.len() ==> #[trigger] keys@[i]@ == installed_key_spec(names@[i]@),
    ensures
        fields_view(final(out)@) == fields_view(old(out)@) + fields_view(members@).filter(
            kept_record(names@),
        ),
{
    let ghost p = kept_record(names@);
    let ghost all = fields_view(members@);
    let ghost start = fields_view(out@);
    let mut members = members;
    let ghost mut taken: int = 0;
    while members.len() > 0
        invariant
            0 <= taken <= all.len(),
            fields_view(members@) == all.skip(taken),
            fields_view(out@) == start + all.take(taken).filter(p),
            p == kept_record(names@),
            keys@.len() == names@.len(),
            forall|i: int| 0 <= i < names@.len() ==> #[trigger] keys@[i]@ == installed_key_spec(names@[i]@),
        decreases members@.len(),
    {
        let ghost rest = members@;
        let m = members.remove(0);
        let listed = contains_text(keys, m.0.as_str());
        proof {
            assert(fields_view(rest).len() == rest.len());
            assert(all.skip(taken)[0] == all[taken]);
            assert(fields_view(rest)[0] == (m.0@, jview(m.1)));
            assert(all.take(taken + 1) =~= all.take(taken).push(all[taken]));
            all.take(taken).lemma_filter_push(all[taken], p);
            if listed {
                let j = choose|j: int| 0 <= j < keys@.len() && #[trigger] keys@[j]@ == m.0@;
                assert(installed_key_spec(names@[j]@) == m.0@);
            }
            if listed_key(names@, m.0@) {
                let j = choose|j: int|
                    0 <= j < names@.len() && #[trigger] installed_key_spec(names@[j]@) == m.0@;
                assert(keys@[j]@ == m.0@);
            }
        }
        let ghost before = out@;
        let ghost mv = (m.0@, jview(m.1));
        if !listed {
            out.push(m);
            assert(fields_view(out@) =~= fields_view(before).push(mv));
        }
        proof {
            assert forall|k: int| 0 <= k < members@.len() implies #[trigger] fields_view(members@)[k]
                == all.skip(taken + 1)[k] by {
                assert(members@[k] == rest[k + 1]);
                assert(fields_view(rest)[k + 1] == all.skip(taken)[k + 1]);
            }
            assert(fields_view(members@) =~= all.skip(taken + 1));
            taken = taken + 1;
        }
    }
    assert(all.take(taken) =~= all);
}

fn empty_installed() -> (r: Json)
    ensures
        jview(r) == installed_doc(seq![]),
{
    let plugins: Vec<(String, Json)> = Vec::new();
    assert(fields_view(plugins@) =~= seq![]);
    installed_json(plugins)
}

/// `installed_plugins.json` under `config_dir` as uninstalling `names`
/// rewrites it, `existing` being its text (`None` where it could not be read).
pub fn installed_on_uninstall(config_dir: &str, existing: Option<&str>, names: &Vec<String>) -> (r:
    FileUpdate)
    ensures
        rewrites(r, installed_file(config_dir@), installed_after_uninstall(doc_of(existing), names@)),
{
    let doc = installed_without(read_doc(existing), names);
    file_update(registry_paths(config_dir).installed_plugins, &doc)
}

/// `installed_plugins.json` after uninstalling `names`, where `existing` is
/// its document (`None` where there is none).
pub fn installed_without(existing: Option<Json>, names: &Vec<String>) -> (r: Json)
    ensures
        jview(r) == installed_after_uninstall(opt_jview(existing), names@),
{
    let doc = match existing {
        Some(d) => d,
        None => empty_installed(),
    };
    proof {
        lemma_jview_parts(doc);
    }
    match doc {
        Json::Object(mut fields) => match find_key(&fields, "plugins") {
            Some(k) => {
                let ghost fv = fields_view(fields@);
                proof {
                    lemma_key_index(fv, "plugins"@);
                }
                let (key, value) = fields.remove(k);
                proof {
                    lemma_jview_parts(value);
                }
                match value {
                    Json::Object(members) => {
                        let keys = keys_of(names);
                        let mut kept: Vec<(String, Json)> = Vec::new();
                        assert(fields_view(kept@) =~= seq![]);
                        keep_records_into(&mut kept, members, names, &keys);
                        let ghost entry = (key@, JsonV::Object(fields_view(kept@)));
                        fields.insert(k, (key, Json::Object(kept)));
                        proof {
                            lemma_jview_parts(Json::Object(kept));
                            assert(fields_view(fields@) =~= fv.update(k as int, entry));
                        }
                        let doc = Json::Object(fields);
                        proof {
                            lemma_jview_parts(doc);
                        }
                        doc
                    },
                    other => {
                        fields.insert(k, (key, other));
                        proof {
                            assert(fields_view(fields@) =~= fv);
                        }
                        let doc = Json::Object(fields);
                        proof {
                            lemma_jview_parts(doc);
                        }
                        doc
                    },
                }
            },
            None => {
                let doc = Json::Object(fields);
                proof {
                    lemma_jview_parts(doc);
                }
                doc
            },
        },
        other => other,
    }
}

/// The number of `true` in `s`.
pub open spec fn count_true(s: Seq<bool>) -> nat
    decreases s.len(),
{
    if s.len() == 0 {
        0
    } else {
        count_true(s.drop_last()) + if s.last() {
            1nat
        } else {
            0nat
        }
    }
}

/// What an uninstall reports: how many of the plugins it was asked to
/// remove had a marketplace directory (`existed`, one flag per name).
pub fn removed_count(existed: &Vec<bool>) -> (r: usize)
    ensures
        r == count_true(existed@),
{
    let mut n: usize = 0;
    let mut i: usize = 0;
    while i < existed.len()
        invariant
            i <= existed@.len(),
            n == count_true(existed@.take(i as int)),
            n <= i,
        decreases existed@.len() - i,
    {
        assert(existed@.take(i + 1).drop_last() =~= existed@.take(i as int));
        if existed[i] {
            n = n + 1;
        }
        i = i + 1;
    }
    assert(existed@.take(existed@.len() as int) =~= existed@);
    n
}

/// Where every plugin asked for had its marketplace directory, as right
/// after installing them, an uninstall reports all of them.
pub proof fn uninstall_counts_every_installed(existed: Seq<bool>)
    requires
        forall|i: int| 0 <= i < existed.len() ==> #[trigger] existed[i],
    ensures
        count_true(existed) == existed.len(),
    decreases existed.len(),
{
    if existed.len() > 0 {
        let rest = existed.drop_last();
        assert forall|i: int| 0 <= i < rest.len() implies #[trigger] rest[i] by {
            assert(rest[i] == existed[i]);
        }
        uninstall_counts_every_installed(rest);
        assert(existed.last() == existed[existed.len() - 1]);
    }
}

/// The registry files that uninstalling `names` rewrites, in order, after
/// `removed` of their marketplace directories were removed: none when there
/// were none; else `installed_plugins.json` where it is a file (`installed`
/// is `Some` with its text, itself `None` where it could not be read), then
/// the marketplace manifest likewise where it is a file and has a `plugins`
/// array.
pub fn uninstall_updates(
    config_dir: &str,
    names: &Vec<String>,
    removed: usize,
    installed: Option<Option<&str>>,
    manifest: Option<Option<&str>>,
) -> (r: Vec<FileUpdate>)
    ensures
        removed == 0 ==> r@.len() == 0,
        removed > 0 ==> {
            let first = match installed {
                Some(t) => seq![installed_after_uninstall(doc_of(t), names@)],
                None => seq![],
            };
            let second = match manifest {
                Some(t) => match uninstalled_manifest(doc_of(t), names@) {
                    Some(d) => seq![d],
                    None => seq![],
                },
                None => seq![],
            };
            let docs = first + second;
            &&& r@.len() == docs.len()
            &&& installed is Some ==> rewrites(r@[0], installed_file(config_dir@), docs[0])
            &&& second.len() == 1 ==> rewrites(
                r@[first.len() as int],
                manifest_file(config_dir@),
                second[0],
            )
        },
{
    let mut r: Vec<FileUpdate> = Vec::new();
    if removed == 0 {
        return r;
    }
    match installed {
        Some(t) => r.push(installed_on_uninstall(config_dir, t, names)),
        None => {},
    }
    match manifest {
        Some(t) => match manifest_on_uninstall(config_dir, t, names) {
            Some(u) => r.push(u),
            None => {},
        },
        None => {},
    }
    r
}


proof fn lemma_filter_idempotent<A>(s: Seq<A>, p: spec_fn(A) -> bool)
    ensures
        s.filter(p).filter(p) == s.filter(p),
    decreases s.len(),
{
    if s.len() > 0 {
        let t = s.drop_last();
        lemma_filter_idempotent(t, p);
        assert(s =~= t.push(s.last()));
        t.lemma_filter_push(s.last(), p);
        if p(s.last()) {
            t.filter(p).lemma_filter_push(s.last(), p);
        }
    }
}

proof fn lemma_filter_exclusive<A>(s: Seq<A>, p: spec_fn(A) -> bool, q: spec_fn(A) -> bool)
    requires
        forall|x: A| #[trigger] p(x) ==> !q(x),
    ensures
        s.filter(p).filter(q) == Seq::<A>::empty(),
    decreases s.len(),
{
    if s.len() > 0 {
        let t = s.drop_last();
        lemma_filter_exclusive(t, p, q);
        assert(s =~= t.push(s.last()));
        t.lemma_filter_push(s.last(), p);
        if p(s.last()) {
            t.filter(p).lemma_filter_push(s.last(), q);
        }
    }
}

proof fn lemma_filter_keeps_all<A>(s: Seq<A>, p: spec_fn(A) -> bool)
    requires
        forall|i: int| 0 <= i < s.len() ==> #[trigger] p(s[i]),
    ensures
        s.filter(p) == s,
    decreases s.len(),
{
    if s.len() > 0 {
        let t = s.drop_last();
        assert forall|i: int| 0 <= i < t.len() implies #[trigger] p(t[i]) by {
            assert(t[i] == s[i]);
        }
        lemma_filter_keeps_all(t, p);
        assert(s =~= t.push(s.last()));
        t.lemma_filter_push(s.last(), p);
    }
}

proof fn lemma_filter_keeps_none<A>(s: Seq<A>, p: spec_fn(A) -> bool)
    requires
        forall|i: int| 0 <= i < s.len() ==> !#[trigger] p(s[i]),
    ensures
        s.filter(p) == Seq::<A>::empty(),
    decreases s.len(),
{
    if s.len() > 0 {
        let t = s.drop_last();
        assert forall|i: int| 0 <= i < t.len() implies !#[trigger] p(t[i]) by {
            assert(t[i] == s[i]);
        }
        lemma_filter_keeps_none(t, p);
        assert(s =~= t.push(s.last()));
        t.lemma_filter_push(s.last(), p);
    }
}

proof fn lemma_manifest_plugins(plugins: Seq<JsonV>)
    ensures
        key_index(manifest_doc(plugins)->Object_0, "plugins"@) == Some(1int),
        plugin_entries(Some(manifest_doc(plugins))) == plugins,
{
    reveal_strlit("name");
    reveal_strlit("plugins");
    let f = manifest_doc(plugins)->Object_0;
    assert(f[0].0 == "name"@);
    assert(f[0].0.len() != "plugins"@.len());
    assert(crate::json::key_index_from(f, "plugins"@, 1) == Some(1int));
}

/// Uninstalling the plugins that were just installed leaves the manifest
/// with exactly the other plugins' entries it had before, in their order;
/// where it held no entry of those plugins, its entries are back as they
/// were.
pub proof fn uninstall_undoes_install(existing: Option<JsonV>, source: Option<JsonV>, names: Seq<String>)
    ensures
        uninstalled_manifest(Some(installed_manifest(existing, source, names)), names) == Some(
            manifest_doc(plugin_entries(existing).filter(foreign(names))),
        ),
        (forall|i: int|
            0 <= i < plugin_entries(existing).len() ==> !is_selected(
                names,
                #[trigger] plugin_entries(existing)[i],
            )) ==> plugin_entries(existing).filter(foreign(names)) == plugin_entries(existing),
{
    let a = plugin_entries(existing).filter(foreign(names));
    let b = plugin_entries(source).filter(chosen(names));
    lemma_manifest_plugins(a + b);
    Seq::filter_distributes_over_add(a, b, foreign(names));
    lemma_filter_idempotent(plugin_entries(existing), foreign(names));
    assert forall|x: JsonV| #[trigger] chosen(names)(x) implies !foreign(names)(x) by {}
    lemma_filter_exclusive(plugin_entries(source), chosen(names), foreign(names));
    assert((a + b).filter(foreign(names)) =~= a);
    let doc = manifest_doc(a + b);
    assert(doc->Object_0.update(1, ("plugins"@, JsonV::Array(a))) =~= manifest_doc(a)->Object_0);
    if forall|i: int|
        0 <= i < plugin_entries(existing).len() ==> !is_selected(
            names,
            #[trigger] plugin_entries(existing)[i],
        ) {
        assert forall|i: int| 0 <= i < plugin_entries(existing).len() implies #[trigger] foreign(
            names,
        )(plugin_entries(existing)[i]) by {}
        lemma_filter_keeps_all(plugin_entries(existing), foreign(names));
    }
}

/// Installing the same plugins a second time from the same experts tree
/// gives the same marketplace manifest as the first time.
pub proof fn reinstall_keeps_manifest(existing: Option<JsonV>, source: Option<JsonV>, names: Seq<String>)
    ensures
        installed_manifest(Some(installed_manifest(existing, source, names)), source, names)
            == installed_manifest(existing, source, names),
{
    let a = plugin_entries(existing).filter(foreign(names));
    let b = plugin_entries(source).filter(chosen(names));
    lemma_manifest_plugins(a + b);
    Seq::filter_distributes_over_add(a, b, foreign(names));
    lemma_filter_idempotent(plugin_entries(existing), foreign(names));
    assert forall|x: JsonV| #[trigger] chosen(names)(x) implies !foreign(names)(x) by {}
    lemma_filter_exclusive(plugin_entries(source), chosen(names), foreign(names));
    assert((a + b).filter(foreign(names)) =~= a);
}


/// The names of the members of an object, in order.
pub open spec fn member_keys(fields: Seq<(Seq<char>, JsonV)>) -> Seq<Seq<char>> {
    fields.map_values(|m: (Seq<char>, JsonV)| m.0)
}

proof fn lemma_installed_plugins(plugins: Seq<(Seq<char>, JsonV)>)
    ensures
        key_index(installed_doc(plugins)->Object_0, "plugins"@) == Some(1int),
        lookup(installed_doc(plugins), "plugins"@) == Some(JsonV::Object(plugins)),
{
    reveal_strlit("version");
    reveal_strlit("plugins");
    let f = installed_doc(plugins)->Object_0;
    assert(f[0].0 == "version"@);
    assert(f[0].0[0] != "plugins"@[0]);
    assert(crate::json::key_index_from(f, "plugins"@, 1) == Some(1int));
}

proof fn lemma_insert_other(fields: Seq<(Seq<char>, JsonV)>, k2: Seq<char>, v: JsonV, k: Seq<char>)
    requires
        k2 != k,
    ensures
        lookup(JsonV::Object(insert_member(fields, k2, v)), k) == lookup(JsonV::Object(fields), k),
{
    crate::json::lemma_key_index(fields, k2);
    crate::json::lemma_key_index(fields, k);
    let g = insert_member(fields, k2, v);
    crate::json::lemma_key_index(g, k);
    match key_index(fields, k2) {
        Some(i) => {
            crate::json::lemma_key_index_same_names(fields, g, k);
        },
        None => {
            match key_index(g, k) {
                Some(j) => {
                    if j < fields.len() {
                        assert(g[j] == fields[j]);
                    }
                    match key_index(fields, k) {
                        Some(m) => {
                            assert(g[m] == fields[m]);
                        },
                        None => {},
                    }
                },
                None => {
                    match key_index(fields, k) {
                        Some(m) => {
                            assert(g[m] == fields[m]);
                        },
                        None => {},
                    }
                },
            }
        },
    }
}

proof fn lemma_with_records_other(fields: Seq<(Seq<char>, JsonV)>, records: Seq<InstalledRecord>, k: Seq<char>)
    requires
        forall|i: int| 0 <= i < records.len() ==> #[trigger] records[i].key@ != k,
    ensures
        lookup(JsonV::Object(with_records(fields, records)), k) == lookup(JsonV::Object(fields), k),
    decreases records.len(),
{
    if records.len() > 0 {
        let rest = records.drop_last();
        assert forall|i: int| 0 <= i < rest.len() implies #[trigger] rest[i].key@ != k by {
            assert(rest[i] == records[i]);
        }
        lemma_with_records_other(fields, rest, k);
        assert(records.last() == records[records.len() - 1]);
        lemma_insert_other(
            with_records(fields, rest),
            records.last().key@,
            record_entry(records.last()),
            k,
        );
    }
}

/// Installing never touches the `installed_plugins.json` record of a plugin
/// that is not being installed: under every key that no new record has,
/// the plugins object holds what it held before.
pub proof fn install_keeps_other_records(existing: Option<JsonV>, records: Seq<InstalledRecord>, k: Seq<char>)
    requires
        forall|i: int| 0 <= i < records.len() ==> #[trigger] records[i].key@ != k,
    ensures
        lookup_in(lookup(installed_after_install(existing, records), "plugins"@), k) == lookup_in(
            lookup_in(existing, "plugins"@),
            k,
        ),
{
    let p0 = members_of(lookup_in(existing, "plugins"@));
    lemma_installed_plugins(with_records(p0, records));
    lemma_with_records_other(p0, records, k);
}

proof fn lemma_with_records_listed(
    fields: Seq<(Seq<char>, JsonV)>,
    records: Seq<InstalledRecord>,
    names: Seq<String>,
)
    requires
        forall|i: int| 0 <= i < fields.len() ==> !listed_key(names, #[trigger] fields[i].0),
        forall|i: int| 0 <= i < records.len() ==> listed_key(names, #[trigger] records[i].key@),
    ensures
        with_records(fields, records).len() >= fields.len(),
        with_records(fields, records).subrange(0, fields.len() as int) == fields,
        forall|j: int|
            fields.len() <= j < with_records(fields, records).len() ==> listed_key(
                names,
                #[trigger] with_records(fields, records)[j].0,
            ),
    decreases records.len(),
{
    if records.len() > 0 {
        let rest = records.drop_last();
        assert forall|i: int| 0 <= i < rest.len() implies listed_key(names, #[trigger] rest[i].key@) by {
            assert(rest[i] == records[i]);
        }
        lemma_with_records_listed(fields, rest, names);
        let w = with_records(fields, rest);
        let k = records.last().key@;
        assert(records.last() == records[records.len() - 1]);
        crate::json::lemma_key_index(w, k);
        let g = insert_member(w, k, record_entry(records.last()));
        match key_index(w, k) {
            Some(i) => {
                if i < fields.len() {
                    assert(w.subrange(0, fields.len() as int)[i] == w[i]);
                    assert(!listed_key(names, fields[i].0));
                }
                assert(g.subrange(0, fields.len() as int) =~= w.subrange(0, fields.len() as int));
                assert forall|j: int| fields.len() <= j < g.len() implies listed_key(names, #[trigger] g[j].0) by {
                    if j != i {
                        assert(g[j] == w[j]);
                    }
                }
            },
            None => {
                assert(g.subrange(0, fields.len() as int) =~= w.subrange(0, fields.len() as int));
                assert forall|j: int| fields.len() <= j < g.len() implies listed_key(names, #[trigger] g[j].0) by {
                    if j < w.len() {
                        assert(g[j] == w[j]);
                    }
                }
            },
        }
    }
}

/// Uninstalling the plugins that were just installed gives back the
/// `installed_plugins.json` plugins object as it was, where it held no
/// record of them: the install's records are exactly the ones dropped.
pub proof fn uninstall_undoes_install_records(
    existing: Option<JsonV>,
    records: Seq<InstalledRecord>,
    names: Seq<String>,
)
    requires
        forall|i: int| 0 <= i < records.len() ==> listed_key(names, #[trigger] records[i].key@),
        forall|i: int|
            0 <= i < members_of(lookup_in(existing, "plugins"@)).len() ==> !listed_key(
                names,
                #[trigger] members_of(lookup_in(existing, "plugins"@))[i].0,
            ),
    ensures
        installed_after_uninstall(Some(installed_after_install(existing, records)), names)
            == installed_doc(members_of(lookup_in(existing, "plugins"@))),
{
    let p0 = members_of(lookup_in(existing, "plugins"@));
    let w = with_records(p0, records);
    lemma_with_records_listed(p0, records, names);
    lemma_installed_plugins(w);
    let t = w.subrange(p0.len() as int, w.len() as int);
    assert(w =~= p0 + t);
    Seq::filter_distributes_over_add(p0, t, kept_record(names));
    assert forall|i: int| 0 <= i < p0.len() implies #[trigger] kept_record(names)(p0[i]) by {}
    lemma_filter_keeps_all(p0, kept_record(names));
    assert forall|i: int| 0 <= i < t.len() implies !#[trigger] kept_record(names)(t[i]) by {
        assert(t[i] == w[p0.len() + i]);
    }
    lemma_filter_keeps_none(t, kept_record(names));
    assert(w.filter(kept_record(names)) =~= p0);
    let doc = installed_doc(w);
    assert(doc->Object_0.update(1, ("plugins"@, JsonV::Object(p0))) =~= installed_doc(p0)->Object_0);
}


proof fn lemma_same_keys_index(a: Seq<(Seq<char>, JsonV)>, b: Seq<(Seq<char>, JsonV)>, k: Seq<char>)
    requires
        member_keys(a) == member_keys(b),
    ensures
        key_index(a, k) == key_index(b, k),
{
    assert(a.len() == member_keys(a).len());
    assert(b.len() == member_keys(b).len());
    assert forall|j: int| 0 <= j < a.len() implies #[trigger] a[j].0 == b[j].0 by {
        assert(member_keys(a)[j] == a[j].0);
        assert(member_keys(b)[j] == b[j].0);
    }
    crate::json::lemma_key_index_same_names(a, b, k);
}

proof fn lemma_insert_keys(fields: Seq<(Seq<char>, JsonV)>, k: Seq<char>, v: JsonV, k2: Seq<char>)
    ensures
        key_index(fields, k) is Some ==> member_keys(insert_member(fields, k, v)) == member_keys(
            fields,
        ),
        key_index(insert_member(fields, k, v), k) is Some,
        key_index(fields, k2) is Some ==> key_index(insert_member(fields, k, v), k2) is Some,
{
    crate::json::lemma_key_index(fields, k);
    crate::json::lemma_key_index(fields, k2);
    let g = insert_member(fields, k, v);
    crate::json::lemma_key_index(g, k);
    crate::json::lemma_key_index(g, k2);
    match key_index(fields, k) {
        Some(i) => {
            assert(member_keys(g) =~= member_keys(fields));
            lemma_same_keys_index(g, fields, k2);
            assert(g[i].0 == k);
        },
        None => {
            assert(g[fields.len() as int].0 == k);
            match key_index(fields, k2) {
                Some(m) => {
                    assert(g[m] == fields[m]);
                },
                None => {},
            }
        },
    }
}

proof fn lemma_with_records_has(fields: Seq<(Seq<char>, JsonV)>, records: Seq<InstalledRecord>)
    ensures
        forall|i: int|
            0 <= i < records.len() ==> key_index(with_records(fields, records), #[trigger] records[i].key@)
                is Some,
    decreases records.len(),
{
    if records.len() > 0 {
        let rest = records.drop_last();
        lemma_with_records_has(fields, rest);
        let w = with_records(fields, rest);
        assert(records.last() == records[records.len() - 1]);
        assert forall|i: int|
            0 <= i < records.len() implies key_index(
            with_records(fields, records),
            #[trigger] records[i].key@,
        ) is Some by {
            lemma_insert_keys(w, records.last().key@, record_entry(records.last()), records[i].key@);
            if i < rest.len() {
                assert(rest[i] == records[i]);
            }
        }
    }
}

proof fn lemma_with_records_same_keys(fields: Seq<(Seq<char>, JsonV)>, records: Seq<InstalledRecord>)
    requires
        forall|i: int| 0 <= i < records.len() ==> key_index(fields, #[trigger] records[i].key@) is Some,
    ensures
        member_keys(with_records(fields, records)) == member_keys(fields),
    decreases records.len(),
{
    if records.len() > 0 {
        let rest = records.drop_last();
        assert forall|i: int| 0 <= i < rest.len() implies key_index(fields, #[trigger] rest[i].key@) is Some by {
            assert(rest[i] == records[i]);
        }
        lemma_with_records_same_keys(fields, rest);
        let w = with_records(fields, rest);
        let k = records.last().key@;
        assert(records.last() == records[records.len() - 1]);
        lemma_same_keys_index(w, fields, k);
        lemma_insert_keys(w, k, record_entry(records.last()), k);
    }
}

/// Installing the same plugins again leaves the `installed_plugins.json`
/// plugins object with the same keys in the same order: only the records'
/// contents (their timestamps) are written anew.
pub proof fn reinstall_keeps_record_keys(existing: Option<JsonV>, records: Seq<InstalledRecord>)
    ensures
        member_keys(
            members_of(
                lookup(
                    installed_after_install(Some(installed_after_install(existing, records)), records),
                    "plugins"@,
                ),
            ),
        ) == member_keys(members_of(lookup(installed_after_install(existing, records), "plugins"@))),
{
    let p0 = members_of(lookup_in(existing, "plugins"@));
    let w = with_records(p0, records);
    lemma_installed_plugins(w);
    lemma_with_records_has(p0, records);
    lemma_with_records_same_keys(w, records);
    lemma_installed_plugins(with_records(w, records));
}

} // verus!

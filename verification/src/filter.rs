//! The whitelist filter.
//!
//! Walks the manifest's plugin list, and for every entry named like the
//! target plugin replaces the `assets` array of its settings with the
//! subsequence of assets whose `label` is in the whitelist. Assets without
//! a string `label`, entries with other names, entries of unexpected shape
//! and every other part of the document are kept exactly as they are.

use vstd::prelude::*;
use vstd::string::StringExecFns;

use crate::json::arr_view;
use crate::json::clone_entries_range;
use crate::json::clone_items_range;
use crate::json::entries_view;
use crate::json::json_clone;
use crate::json::lemma_arr_view;
use crate::json::lemma_entries_view;
use crate::json::JsonValue;
use crate::json::JsonView;

verus! {

broadcast use lemma_arr_view, lemma_entries_view;

/// The name of the one plugin whose assets are subject to filtering.
pub open spec fn spec_target_plugin() -> Seq<char> {
    "@semantic-release/github"@
}

/// The target plugin identifier as text.
pub fn target_plugin_name() -> (r: &'static str)
    ensures
        r@ == spec_target_plugin(),
{
    "@semantic-release/github"
}

/// The name of a plugin entry: a bare string names itself; a configured
/// entry is named by its first element if and only if that is a string.
pub open spec fn spec_plugin_name(p: JsonView) -> Option<Seq<char>> {
    match p {
        JsonView::Str(s) => Some(s),
        JsonView::Arr(items) => if items.len() > 0 {
            match items[0] {
                JsonView::Str(s) => Some(s),
                _ => None,
            }
        } else {
            None
        },
        _ => None,
    }
}

/// The first position holding `key` in an object's members, or -1.
pub open spec fn spec_key_index(members: Seq<(Seq<char>, JsonView)>, key: Seq<char>) -> int
    decreases members.len(),
{
    if members.len() == 0 {
        -1
    } else if members[0].0 == key {
        0
    } else {
        let r = spec_key_index(members.subrange(1, members.len() as int), key);
        if r == -1 {
            -1
        } else {
            r + 1
        }
    }
}

/// What `spec_key_index` returns: the first position with the key, if any.
pub proof fn lemma_key_index(members: Seq<(Seq<char>, JsonView)>, key: Seq<char>)
    ensures
        spec_key_index(members, key) == -1 ==> forall|j: int|
            0 <= j < members.len() ==> (#[trigger] members[j]).0 != key,
        spec_key_index(members, key) != -1 ==> 0 <= spec_key_index(members, key) < members.len()
            && members[spec_key_index(members, key)].0 == key && (forall|j: int|
            0 <= j < spec_key_index(members, key) ==> (#[trigger] members[j]).0 != key),
    decreases members.len(),
{
    if members.len() > 0 && members[0].0 != key {
        let rest = members.subrange(1, members.len() as int);
        lemma_key_index(rest, key);
        assert(forall|j: int| 1 <= j < members.len() ==> #[trigger] members[j] == rest[j - 1]);
    }
}

/// If `i` is the first position with the key, `spec_key_index` says so.
pub proof fn lemma_key_index_found(members: Seq<(Seq<char>, JsonView)>, key: Seq<char>, i: int)
    requires
        0 <= i < members.len(),
        members[i].0 == key,
        forall|j: int| 0 <= j < i ==> (#[trigger] members[j]).0 != key,
    ensures
        spec_key_index(members, key) == i,
    decreases members.len(),
{
    if i > 0 {
        let rest = members.subrange(1, members.len() as int);
        assert(forall|j: int| 1 <= j < members.len() ==> #[trigger] members[j] == rest[j - 1]);
        lemma_key_index_found(rest, key, i - 1);
    }
}

/// If no position holds the key, `spec_key_index` is -1.
pub proof fn lemma_key_index_none(members: Seq<(Seq<char>, JsonView)>, key: Seq<char>)
    requires
        forall|j: int| 0 <= j < members.len() ==> (#[trigger] members[j]).0 != key,
    ensures
        spec_key_index(members, key) == -1,
    decreases members.len(),
{
    if members.len() > 0 {
        let rest = members.subrange(1, members.len() as int);
        assert(forall|j: int| 0 <= j < rest.len() ==> #[trigger] rest[j] == members[j + 1]);
        lemma_key_index_none(rest, key);
    }
}

/// The value stored under `key`, taken at its first occurrence.
pub open spec fn spec_member_value(members: Seq<(Seq<char>, JsonView)>, key: Seq<char>) -> Option<
    JsonView,
> {
    let i = spec_key_index(members, key);
    if i == -1 {
        None
    } else {
        Some(members[i].1)
    }
}

/// The label of an asset: the string under its `label` key, if the asset
/// is an object and that value is a string.
pub open spec fn spec_asset_label(a: JsonView) -> Option<Seq<char>> {
    match a {
        JsonView::Obj(members) => match spec_member_value(members, "label"@) {
            Some(JsonView::Str(s)) => Some(s),
            _ => None,
        },
        _ => None,
    }
}

/// Whether the filter keeps an asset: labelled assets stay if and only if
/// their label is whitelisted; anything else stays unconditionally.
pub open spec fn spec_asset_kept(a: JsonView, ws: Seq<Seq<char>>) -> bool {
    match spec_asset_label(a) {
        Some(l) => ws.contains(l),
        None => true,
    }
}

/// The kept assets, in their original order.
pub open spec fn spec_filter_assets(assets: Seq<JsonView>, ws: Seq<Seq<char>>) -> Seq<JsonView>
    decreases assets.len(),
{
    if assets.len() == 0 {
        Seq::empty()
    } else {
        let rest = spec_filter_assets(assets.subrange(0, assets.len() - 1), ws);
        if spec_asset_kept(assets[assets.len() - 1], ws) {
            rest.push(assets[assets.len() - 1])
        } else {
            rest
        }
    }
}

/// A settings object after filtering: its first `assets` member, when that
/// member holds an array, holds the kept assets; all else is unchanged.
pub open spec fn spec_update_settings(
    members: Seq<(Seq<char>, JsonView)>,
    ws: Seq<Seq<char>>,
) -> Seq<(Seq<char>, JsonView)> {
    let i = spec_key_index(members, "assets"@);
    if i >= 0 {
        match members[i].1 {
            JsonView::Arr(assets) => members.update(
                i,
                (members[i].0, JsonView::Arr(spec_filter_assets(assets, ws))),
            ),
            _ => members,
        }
    } else {
        members
    }
}

/// Whether filtering a settings object drops at least one asset.
pub open spec fn spec_settings_modified(
    members: Seq<(Seq<char>, JsonView)>,
    ws: Seq<Seq<char>>,
) -> bool {
    let i = spec_key_index(members, "assets"@);
    i >= 0 && match members[i].1 {
        JsonView::Arr(assets) => spec_filter_assets(assets, ws).len() < assets.len(),
        _ => false,
    }
}

/// A plugin entry after filtering: only an entry named like the target
/// plugin, shaped as an array whose second element is an object, has that
/// object's assets filtered; every other entry is unchanged.
pub open spec fn spec_apply_plugin(p: JsonView, ws: Seq<Seq<char>>) -> JsonView {
    if spec_plugin_name(p) == Some(spec_target_plugin()) {
        match p {
            JsonView::Arr(items) => if items.len() >= 2 {
                match items[1] {
                    JsonView::Obj(settings) => JsonView::Arr(
                        items.update(1, JsonView::Obj(spec_update_settings(settings, ws))),
                    ),
                    _ => p,
                }
            } else {
                p
            },
            _ => p,
        }
    } else {
        p
    }
}

/// Whether filtering a plugin entry drops at least one asset.
pub open spec fn spec_plugin_modified(p: JsonView, ws: Seq<Seq<char>>) -> bool {
    spec_plugin_name(p) == Some(spec_target_plugin()) && match p {
        JsonView::Arr(items) => items.len() >= 2 && match items[1] {
            JsonView::Obj(settings) => spec_settings_modified(settings, ws),
            _ => false,
        },
        _ => false,
    }
}

/// Every plugin entry after filtering, in order.
pub open spec fn spec_apply_plugins(plugins: Seq<JsonView>, ws: Seq<Seq<char>>) -> Seq<JsonView> {
    Seq::new(plugins.len(), |k: int| spec_apply_plugin(plugins[k], ws))
}

/// Whether filtering any plugin entry drops at least one asset.
pub open spec fn spec_plugins_modified(plugins: Seq<JsonView>, ws: Seq<Seq<char>>) -> bool {
    exists|k: int| 0 <= k < plugins.len() && spec_plugin_modified(#[trigger] plugins[k], ws)
}

/// A manifest after filtering: when its first `plugins` member holds an
/// array, each entry of that array is filtered; all else is unchanged.
pub open spec fn spec_apply_manifest(
    entries: Seq<(Seq<char>, JsonView)>,
    ws: Seq<Seq<char>>,
) -> Seq<(Seq<char>, JsonView)> {
    let i = spec_key_index(entries, "plugins"@);
    if i >= 0 {
        match entries[i].1 {
            JsonView::Arr(plugins) => entries.update(
                i,
                (entries[i].0, JsonView::Arr(spec_apply_plugins(plugins, ws))),
            ),
            _ => entries,
        }
    } else {
        entries
    }
}

/// Whether filtering the whole manifest drops at least one asset.
pub open spec fn spec_manifest_modified(
    entries: Seq<(Seq<char>, JsonView)>,
    ws: Seq<Seq<char>>,
) -> bool {
    let i = spec_key_index(entries, "plugins"@);
    i >= 0 && match entries[i].1 {
        JsonView::Arr(plugins) => spec_plugins_modified(plugins, ws),
        _ => false,
    }
}

/// The plugins array of a manifest, when its first `plugins` member
/// holds an array.
pub open spec fn spec_plugins_of(entries: Seq<(Seq<char>, JsonView)>) -> Option<Seq<JsonView>> {
    let i = spec_key_index(entries, "plugins"@);
    if i >= 0 {
        match entries[i].1 {
            JsonView::Arr(plugins) => Some(plugins),
            _ => None,
        }
    } else {
        None
    }
}

/// The assets array that filtering a plugin entry would touch: present
/// exactly when the entry is named like the target plugin, is an array
/// whose second element is an object, and that object's first `assets`
/// member holds an array.
pub open spec fn spec_plugin_assets(p: JsonView) -> Option<Seq<JsonView>> {
    if spec_plugin_name(p) == Some(spec_target_plugin()) {
        match p {
            JsonView::Arr(items) => if items.len() >= 2 {
                match items[1] {
                    JsonView::Obj(settings) => match spec_member_value(settings, "assets"@) {
                        Some(JsonView::Arr(assets)) => Some(assets),
                        _ => None,
                    },
                    _ => None,
                }
            } else {
                None
            },
            _ => None,
        }
    } else {
        None
    }
}

/// Two member lists with the same keys in the same places have the same
/// first position for every key.
pub proof fn lemma_key_index_same_keys(
    m1: Seq<(Seq<char>, JsonView)>,
    m2: Seq<(Seq<char>, JsonView)>,
    key: Seq<char>,
)
    requires
        m1.len() == m2.len(),
        forall|j: int| 0 <= j < m1.len() ==> (#[trigger] m1[j]).0 == m2[j].0,
    ensures
        spec_key_index(m1, key) == spec_key_index(m2, key),
    decreases m1.len(),
{
    if m1.len() > 0 && m1[0].0 != key {
        let r1 = m1.subrange(1, m1.len() as int);
        let r2 = m2.subrange(1, m2.len() as int);
        assert(forall|j: int| 0 <= j < r1.len() ==> (#[trigger] r1[j]) == m1[j + 1]);
        assert(forall|j: int| 0 <= j < r2.len() ==> (#[trigger] r2[j]) == m2[j + 1]);
        lemma_key_index_same_keys(r1, r2, key);
    }
}

/// The first position of `key` among an object's members, if any.
pub fn find_key(members: &Vec<(String, JsonValue)>, key: &String) -> (r: Option<usize>)
    ensures
        match r {
            Some(i) => i < members@.len() && spec_key_index(entries_view(members@), key@)
                == i as int,
            None => spec_key_index(entries_view(members@), key@) == -1,
        },
{
    let n = members.len();
    let mut i: usize = 0;
    while i < n
        invariant
            i <= n,
            n == members@.len(),
            forall|j: int| 0 <= j < i ==> (#[trigger] entries_view(members@)[j]).0 != key@,
        decreases n - i,
    {
        if members[i].0 == *key {
            proof {
                lemma_key_index_found(entries_view(members@), key@, i as int);
            }
            return Some(i);
        }
        i = i + 1;
    }
    proof {
        lemma_key_index_none(entries_view(members@), key@);
    }
    None
}

/// Whether the whitelist holds the label `l`.
pub fn whitelist_contains(whitelist: &Vec<String>, l: &String) -> (r: bool)
    ensures
        r == whitelist.deep_view().contains(l@),
{
    let n = whitelist.len();
    let mut i: usize = 0;
    while i < n
        invariant
            i <= n,
            n == whitelist@.len(),
            forall|j: int| 0 <= j < i ==> #[trigger] whitelist.deep_view()[j] != l@,
        decreases n - i,
    {
        if whitelist[i] == *l {
            proof {
                assert(whitelist.deep_view()[i as int] == l@);
            }
            return true;
        }
        i = i + 1;
    }
    false
}

/// Whether the filter keeps this asset.
fn asset_kept(a: &JsonValue, whitelist: &Vec<String>) -> (r: bool)
    ensures
        r == spec_asset_kept(a@, whitelist.deep_view()),
{
    match a {
        JsonValue::Obj(members) => {
            let key = String::from_str("label");
            match find_key(members, &key) {
                Some(i) => match &members[i].1 {
                    JsonValue::Str(s) => whitelist_contains(whitelist, s),
                    _ => true,
                },
                None => true,
            }
        },
        _ => true,
    }
}

/// The kept assets in original order, and whether any asset was dropped.
fn filter_assets(assets: &Vec<JsonValue>, whitelist: &Vec<String>) -> (r: (Vec<JsonValue>, bool))
    ensures
        arr_view(r.0@) == spec_filter_assets(arr_view(assets@), whitelist.deep_view()),
        r.1 == (r.0@.len() < assets@.len()),
{
    let ghost ws = whitelist.deep_view();
    let ghost full = arr_view(assets@);
    let n = assets.len();
    let mut out: Vec<JsonValue> = Vec::new();
    let mut i: usize = 0;
    while i < n
        invariant
            i <= n,
            n == assets@.len(),
            full == arr_view(assets@),
            ws == whitelist.deep_view(),
            out@.len() <= i,
            arr_view(out@) == spec_filter_assets(full.subrange(0, i as int), ws),
        decreases n - i,
    {
        let ghost prefix = full.subrange(0, i as int);
        let ghost next = full.subrange(0, i as int + 1);
        let kept = asset_kept(&assets[i], whitelist);
        if kept {
            let c = json_clone(&assets[i]);
            out.push(c);
        }
        proof {
            assert(next.subrange(0, next.len() - 1) =~= prefix);
            assert(next[next.len() - 1] == full[i as int]);
            if kept {
                assert(arr_view(out@) =~= spec_filter_assets(prefix, ws).push(full[i as int]));
            }
            assert(arr_view(out@) == spec_filter_assets(next, ws));
        }
        i = i + 1;
    }
    proof {
        assert(full.subrange(0, n as int) =~= full);
    }
    let modified = out.len() < n;
    (out, modified)
}

/// Whether this plugin entry is named like the target plugin.
fn plugin_is_target(p: &JsonValue) -> (r: bool)
    ensures
        r == (spec_plugin_name(p@) == Some(spec_target_plugin())),
{
    let target = String::from_str(target_plugin_name());
    match p {
        JsonValue::Str(s) => {
            let r = *s == target;
            proof {
                assert(p@ == JsonView::Str(s@));
            }
            r
        },
        JsonValue::Arr(items) => {
            if items.len() > 0 {
                match &items[0] {
                    JsonValue::Str(s) => {
                        let r = *s == target;
                        proof {
                            assert(arr_view(items@)[0] == items@[0]@);
                            assert(items@[0]@ == JsonView::Str(s@));
                        }
                        r
                    },
                    _ => {
                        proof {
                            assert(arr_view(items@)[0] == items@[0]@);
                        }
                        false
                    },
                }
            } else {
                false
            }
        },
        _ => false,
    }
}

/// A settings object with its assets filtered, and whether any asset was
/// dropped.
fn update_settings(settings: &Vec<(String, JsonValue)>, whitelist: &Vec<String>) -> (r: (
    Vec<(String, JsonValue)>,
    bool,
))
    ensures
        entries_view(r.0@) == spec_update_settings(entries_view(settings@), whitelist.deep_view()),
        r.1 == spec_settings_modified(entries_view(settings@), whitelist.deep_view()),
{
    let ghost ws = whitelist.deep_view();
    let ghost sv = entries_view(settings@);
    let key = String::from_str("assets");
    let n = settings.len();
    match find_key(settings, &key) {
        Some(i) => {
            match &settings[i].1 {
                JsonValue::Arr(assets) => {
                    let (new_assets, modified) = filter_assets(assets, whitelist);
                    let mut out: Vec<(String, JsonValue)> = Vec::new();
                    clone_entries_range(settings, 0, i, &mut out);
                    let k = settings[i].0.clone();
                    out.push((k, JsonValue::Arr(new_assets)));
                    clone_entries_range(settings, i + 1, n, &mut out);
                    proof {
                        assert(entries_view(out@) =~= spec_update_settings(sv, ws));
                    }
                    (out, modified)
                },
                _ => {
                    let mut out: Vec<(String, JsonValue)> = Vec::new();
                    clone_entries_range(settings, 0, n, &mut out);
                    proof {
                        assert(entries_view(out@) =~= spec_update_settings(sv, ws));
                    }
                    (out, false)
                },
            }
        },
        None => {
            let mut out: Vec<(String, JsonValue)> = Vec::new();
            clone_entries_range(settings, 0, n, &mut out);
            proof {
                assert(entries_view(out@) =~= spec_update_settings(sv, ws));
            }
            (out, false)
        },
    }
}

/// A plugin entry after filtering, and whether any asset was dropped.
fn transform_plugin(p: &JsonValue, whitelist: &Vec<String>) -> (r: (JsonValue, bool))
    ensures
        r.0@ == spec_apply_plugin(p@, whitelist.deep_view()),
        r.1 == spec_plugin_modified(p@, whitelist.deep_view()),
{
    let ghost ws = whitelist.deep_view();
    if !plugin_is_target(p) {
        return (json_clone(p), false);
    }
    match p {
        JsonValue::Arr(items) => {
            let n = items.len();
            if n >= 2 {
                match &items[1] {
                    JsonValue::Obj(settings) => {
                        let (new_settings, modified) = update_settings(settings, whitelist);
                        let mut out_items: Vec<JsonValue> = Vec::new();
                        clone_items_range(items, 0, 1, &mut out_items);
                        out_items.push(JsonValue::Obj(new_settings));
                        clone_items_range(items, 2, n, &mut out_items);
                        proof {
                            assert(arr_view(out_items@) =~= arr_view(items@).update(
                                1,
                                JsonView::Obj(entries_view(new_settings@)),
                            ));
                        }
                        (JsonValue::Arr(out_items), modified)
                    },
                    _ => (json_clone(p), false),
                }
            } else {
                (json_clone(p), false)
            }
        },
        _ => (json_clone(p), false),
    }
}

/// Every plugin entry after filtering, and whether any asset was dropped.
pub fn filter_plugins(plugins: &Vec<JsonValue>, whitelist: &Vec<String>) -> (r: (
    Vec<JsonValue>,
    bool,
))
    ensures
        arr_view(r.0@) == spec_apply_plugins(arr_view(plugins@), whitelist.deep_view()),
        r.1 == spec_plugins_modified(arr_view(plugins@), whitelist.deep_view()),
{
    let ghost ws = whitelist.deep_view();
    let ghost full = arr_view(plugins@);
    let n = plugins.len();
    let mut out: Vec<JsonValue> = Vec::new();
    let mut any: bool = false;
    let mut i: usize = 0;
    while i < n
        invariant
            i <= n,
            n == plugins@.len(),
            full == arr_view(plugins@),
            ws == whitelist.deep_view(),
            out@.len() == i,
            forall|j: int| 0 <= j < i ==> #[trigger] arr_view(out@)[j] == spec_apply_plugin(
                full[j],
                ws,
            ),
            any == exists|j: int| 0 <= j < i && spec_plugin_modified(#[trigger] full[j], ws),
        decreases n - i,
    {
        let ghost prev = out@;
        let (np, m) = transform_plugin(&plugins[i], whitelist);
        let ghost npv: JsonView = np@;
        out.push(np);
        if m {
            any = true;
        }
        proof {
            assert(full[i as int] == plugins@[i as int]@);
            assert forall|j: int|
                0 <= j < i + 1 implies #[trigger] arr_view(out@)[j] == spec_apply_plugin(
                full[j],
                ws,
            ) by {
                if j < i {
                    assert(arr_view(prev)[j] == spec_apply_plugin(full[j], ws));
                    assert(out@[j] == prev[j]);
                    assert(arr_view(out@)[j] == out@[j]@);
                    assert(arr_view(prev)[j] == prev[j]@);
                } else {
                    assert(arr_view(out@)[j] == out@[j]@);
                    assert(out@[j]@ == npv);
                }
            }
        }
        i = i + 1;
    }
    proof {
        assert(arr_view(out@) =~= spec_apply_plugins(full, ws));
    }
    (out, any)
}

} // verus!

//! Properties of the whitelist filter, stated and proved once and for all.

use vstd::prelude::*;

use crate::filter::spec_apply_manifest;
use crate::filter::spec_apply_plugin;
use crate::filter::spec_apply_plugins;
use crate::filter::spec_asset_kept;
use crate::filter::spec_asset_label;
use crate::filter::spec_filter_assets;
use crate::filter::spec_key_index;
use crate::filter::spec_manifest_modified;
use crate::filter::spec_member_value;
use crate::filter::spec_plugin_assets;
use crate::filter::spec_plugin_modified;
use crate::filter::spec_plugin_name;
use crate::filter::spec_plugins_of;
use crate::filter::spec_settings_modified;
use crate::filter::spec_target_plugin;
use crate::filter::spec_update_settings;
use crate::filter::lemma_key_index;
use crate::filter::lemma_key_index_same_keys;
use crate::json::JsonView;

verus! {

/// Every label these assets carry is in the whitelist.
pub open spec fn spec_labels_whitelisted(assets: Seq<JsonView>, ws: Seq<Seq<char>>) -> bool {
    forall|a: int|
        0 <= a < assets.len() && spec_asset_label(#[trigger] assets[a]) is Some ==> ws.contains(
            spec_asset_label(assets[a])->Some_0,
        )
}

/// Every label present in any target plugin's assets is in the whitelist.
pub open spec fn spec_manifest_labels_whitelisted(
    entries: Seq<(Seq<char>, JsonView)>,
    ws: Seq<Seq<char>>,
) -> bool {
    match spec_plugins_of(entries) {
        Some(plugins) => forall|k: int|
            0 <= k < plugins.len() ==> match spec_plugin_assets(#[trigger] plugins[k]) {
                Some(assets) => spec_labels_whitelisted(assets, ws),
                None => true,
            },
        None => true,
    }
}

/// A filter that keeps every asset changes nothing.
pub proof fn lemma_filter_assets_all_kept(assets: Seq<JsonView>, ws: Seq<Seq<char>>)
    requires
        forall|a: int| 0 <= a < assets.len() ==> spec_asset_kept(#[trigger] assets[a], ws),
    ensures
        spec_filter_assets(assets, ws) == assets,
    decreases assets.len(),
{
    if assets.len() > 0 {
        let sub = assets.subrange(0, assets.len() - 1);
        assert(forall|a: int| 0 <= a < sub.len() ==> (#[trigger] sub[a]) == assets[a]);
        lemma_filter_assets_all_kept(sub, ws);
        assert(spec_filter_assets(assets, ws) =~= assets);
    }
}

/// A settings object whose assets carry only whitelisted labels is left
/// exactly as it is, and nothing counts as dropped.
pub proof fn lemma_settings_whitelisted_noop(
    settings: Seq<(Seq<char>, JsonView)>,
    ws: Seq<Seq<char>>,
)
    requires
        match spec_member_value(settings, "assets"@) {
            Some(v) => v matches JsonView::Arr(assets) ==> spec_labels_whitelisted(assets, ws),
            None => true,
        },
    ensures
        spec_update_settings(settings, ws) == settings,
        !spec_settings_modified(settings, ws),
{
    let i = spec_key_index(settings, "assets"@);
    if i >= 0 {
        lemma_key_index(settings, "assets"@);
        if settings[i].1 is Arr {
            let assets = settings[i].1->Arr_0;
            assert forall|a: int|
                0 <= a < assets.len() implies spec_asset_kept(#[trigger] assets[a], ws) by {}
            lemma_filter_assets_all_kept(assets, ws);
            assert(settings[i] == (settings[i].0, settings[i].1));
            assert(settings.update(i, (settings[i].0, JsonView::Arr(assets))) =~= settings);
        }
    }
}

/// A plugin entry whose filterable assets carry only whitelisted labels
/// is left exactly as it is, and nothing counts as dropped.
pub proof fn lemma_plugin_whitelisted_noop(p: JsonView, ws: Seq<Seq<char>>)
    requires
        match spec_plugin_assets(p) {
            Some(assets) => spec_labels_whitelisted(assets, ws),
            None => true,
        },
    ensures
        spec_apply_plugin(p, ws) == p,
        !spec_plugin_modified(p, ws),
{
    if spec_plugin_name(p) == Some(spec_target_plugin()) && p is Arr {
        let items = p->Arr_0;
        if items.len() >= 2 && items[1] is Obj {
            let settings = items[1]->Obj_0;
            lemma_settings_whitelisted_noop(settings, ws);
            assert(items.update(1, JsonView::Obj(settings)) =~= items);
        }
    }
}

/// Applying a whitelist that holds every label already present in the
/// target plugin's assets leaves the whole manifest exactly as it is and
/// reports nothing dropped.
pub proof fn lemma_full_whitelist_is_noop(entries: Seq<(Seq<char>, JsonView)>, ws: Seq<Seq<char>>)
    requires
        spec_manifest_labels_whitelisted(entries, ws),
    ensures
        spec_apply_manifest(entries, ws) == entries,
        !spec_manifest_modified(entries, ws),
{
    let i = spec_key_index(entries, "plugins"@);
    if i >= 0 {
        lemma_key_index(entries, "plugins"@);
        if entries[i].1 is Arr {
            let plugins = entries[i].1->Arr_0;
            assert forall|k: int|
                0 <= k < plugins.len() implies spec_apply_plugin(#[trigger] plugins[k], ws)
                == plugins[k] && !spec_plugin_modified(plugins[k], ws) by {
                lemma_plugin_whitelisted_noop(plugins[k], ws);
            }
            assert(spec_apply_plugins(plugins, ws) =~= plugins);
            assert(entries[i] == (entries[i].0, entries[i].1));
            assert(entries.update(i, (entries[i].0, JsonView::Arr(plugins))) =~= entries);
        }
    }
}

/// An entry that is not named like the target plugin is never altered,
/// whatever the whitelist holds — even if it carries an `assets`-shaped
/// field of its own.
pub proof fn lemma_non_target_plugin_untouched(p: JsonView, ws: Seq<Seq<char>>)
    requires
        spec_plugin_name(p) != Some(spec_target_plugin()),
    ensures
        spec_apply_plugin(p, ws) == p,
        !spec_plugin_modified(p, ws),
{
}

/// Applying a whitelist can change at most the value of the first
/// `plugins` member: every key, every other member, and every plugin
/// entry not named like the target plugin stay exactly as they were.
pub proof fn lemma_apply_manifest_frame(entries: Seq<(Seq<char>, JsonView)>, ws: Seq<Seq<char>>)
    ensures
        spec_apply_manifest(entries, ws).len() == entries.len(),
        forall|j: int|
            0 <= j < entries.len() ==> (#[trigger] spec_apply_manifest(entries, ws)[j]).0
                == entries[j].0,
        forall|j: int|
            0 <= j < entries.len() && j != spec_key_index(entries, "plugins"@) ==> (
            #[trigger] spec_apply_manifest(entries, ws)[j]) == entries[j],
        match spec_plugins_of(entries) {
            Some(plugins) => spec_plugins_of(spec_apply_manifest(entries, ws)) is Some
                && spec_plugins_of(spec_apply_manifest(entries, ws))->Some_0.len()
                == plugins.len() && forall|k: int|
                0 <= k < plugins.len() && spec_plugin_name(#[trigger] plugins[k]) != Some(
                    spec_target_plugin(),
                ) ==> spec_plugins_of(spec_apply_manifest(entries, ws))->Some_0[k] == plugins[k],
            None => spec_apply_manifest(entries, ws) == entries,
        },
{
    let i = spec_key_index(entries, "plugins"@);
    let result = spec_apply_manifest(entries, ws);
    if i >= 0 {
        lemma_key_index(entries, "plugins"@);
        if entries[i].1 is Arr {
            let plugins = entries[i].1->Arr_0;
            assert(forall|j: int|
                0 <= j < entries.len() ==> (#[trigger] result[j]).0 == entries[j].0);
            lemma_key_index_same_keys(result, entries, "plugins"@);
            assert(result[i].1 == JsonView::Arr(spec_apply_plugins(plugins, ws)));
            assert forall|k: int|
                0 <= k < plugins.len() && spec_plugin_name(#[trigger] plugins[k]) != Some(
                    spec_target_plugin(),
                ) implies spec_apply_plugins(plugins, ws)[k] == plugins[k] by {
                lemma_non_target_plugin_untouched(plugins[k], ws);
            }
        }
    }
}

/// An empty whitelist drops every asset that carries a label.
pub proof fn lemma_empty_whitelist_strips_labelled(assets: Seq<JsonView>, ws: Seq<Seq<char>>)
    requires
        ws.len() == 0,
        forall|a: int| 0 <= a < assets.len() ==> spec_asset_label(#[trigger] assets[a]) is Some,
    ensures
        spec_filter_assets(assets, ws).len() == 0,
    decreases assets.len(),
{
    if assets.len() > 0 {
        let sub = assets.subrange(0, assets.len() - 1);
        assert(forall|a: int| 0 <= a < sub.len() ==> (#[trigger] sub[a]) == assets[a]);
        lemma_empty_whitelist_strips_labelled(sub, ws);
        assert(!spec_asset_kept(assets[assets.len() - 1], ws));
    }
}

/// Applying an empty whitelist to a manifest whose target plugin carries
/// one or more assets, all labelled, empties that plugin's assets array
/// and counts as a modification.
pub proof fn lemma_empty_whitelist_empties_target(
    entries: Seq<(Seq<char>, JsonView)>,
    ws: Seq<Seq<char>>,
    k: int,
)
    requires
        ws.len() == 0,
        spec_plugins_of(entries) is Some,
        0 <= k < spec_plugins_of(entries)->Some_0.len(),
        spec_plugin_assets(spec_plugins_of(entries)->Some_0[k]) is Some,
        forall|a: int|
            0 <= a < spec_plugin_assets(spec_plugins_of(entries)->Some_0[k])->Some_0.len()
                ==> spec_asset_label(
                #[trigger] spec_plugin_assets(spec_plugins_of(entries)->Some_0[k])->Some_0[a],
            ) is Some,
        spec_plugin_assets(spec_plugins_of(entries)->Some_0[k])->Some_0.len() > 0,
    ensures
        spec_manifest_modified(entries, ws),
        spec_plugins_of(spec_apply_manifest(entries, ws)) is Some,
        spec_plugin_assets(spec_plugins_of(spec_apply_manifest(entries, ws))->Some_0[k]) == Some(
            Seq::<JsonView>::empty(),
        ),
{
    let i = spec_key_index(entries, "plugins"@);
    lemma_key_index(entries, "plugins"@);
    let plugins = spec_plugins_of(entries)->Some_0;
    let p = plugins[k];
    let assets = spec_plugin_assets(p)->Some_0;
    let items = p->Arr_0;
    let settings = items[1]->Obj_0;
    let si = spec_key_index(settings, "assets"@);
    lemma_key_index(settings, "assets"@);
    lemma_empty_whitelist_strips_labelled(assets, ws);
    let filtered = spec_filter_assets(assets, ws);
    assert(filtered =~= Seq::<JsonView>::empty());

    // The plugin counts as modified, so the manifest does.
    assert(spec_settings_modified(settings, ws));
    assert(spec_plugin_modified(p, ws));
    assert(spec_manifest_modified(entries, ws));

    // The rewritten plugin carries an empty assets array.
    let result = spec_apply_manifest(entries, ws);
    assert(result == entries.update(
        i,
        (entries[i].0, JsonView::Arr(spec_apply_plugins(plugins, ws))),
    ));
    assert(forall|j: int| 0 <= j < result.len() ==> (#[trigger] result[j]).0 == entries[j].0);
    lemma_key_index_same_keys(result, entries, "plugins"@);
    assert(spec_plugins_of(result) == Some(spec_apply_plugins(plugins, ws)));
    let rp = spec_plugins_of(result)->Some_0;
    assert(rp[k] == spec_apply_plugin(p, ws));
    let ns = spec_update_settings(settings, ws);
    assert(ns == settings.update(si, (settings[si].0, JsonView::Arr(filtered))));
    lemma_key_index_same_keys(ns, settings, "assets"@);
    let ritems = items.update(1, JsonView::Obj(ns));
    assert(rp[k] == JsonView::Arr(ritems));
    assert(ritems[0] == items[0]);
    assert(spec_plugin_name(rp[k]) == Some(spec_target_plugin()));
    assert(spec_member_value(ns, "assets"@) == Some(JsonView::Arr(filtered)));
    assert(spec_plugin_assets(rp[k]) == Some(Seq::<JsonView>::empty()));
}

/// The positions of the assets the filter keeps, in increasing order.
pub open spec fn spec_kept_indices(assets: Seq<JsonView>, ws: Seq<Seq<char>>) -> Seq<int>
    decreases assets.len(),
{
    if assets.len() == 0 {
        Seq::empty()
    } else {
        let rest = spec_kept_indices(assets.subrange(0, assets.len() - 1), ws);
        if spec_asset_kept(assets[assets.len() - 1], ws) {
            rest.push(assets.len() - 1)
        } else {
            rest
        }
    }
}

/// Filtering keeps the original order of the retained assets: the result
/// reads off the kept positions in strictly increasing order; whitelist
/// order plays no part.
pub proof fn lemma_filter_preserves_order(assets: Seq<JsonView>, ws: Seq<Seq<char>>)
    ensures
        spec_kept_indices(assets, ws).len() == spec_filter_assets(assets, ws).len(),
        forall|t: int|
            0 <= t < spec_kept_indices(assets, ws).len() ==> 0 <= #[trigger] spec_kept_indices(
                assets,
                ws,
            )[t] < assets.len(),
        forall|t: int|
            0 <= t < spec_kept_indices(assets, ws).len() ==> spec_filter_assets(assets, ws)[t]
                == assets[#[trigger] spec_kept_indices(assets, ws)[t]],
        forall|t: int|
            0 <= t && t + 1 < spec_kept_indices(assets, ws).len() ==> #[trigger] spec_kept_indices(
                assets,
                ws,
            )[t] < spec_kept_indices(assets, ws)[t + 1],
    decreases assets.len(),
{
    if assets.len() > 0 {
        let sub = assets.subrange(0, assets.len() - 1);
        assert(forall|a: int| 0 <= a < sub.len() ==> (#[trigger] sub[a]) == assets[a]);
        lemma_filter_preserves_order(sub, ws);
        let idx = spec_kept_indices(assets, ws);
        let sidx = spec_kept_indices(sub, ws);
        assert forall|t: int| 0 <= t && t + 1 < idx.len() implies #[trigger] idx[t] < idx[t + 1] by {
            let x = assets.len() - 1;
            if spec_asset_kept(assets[x], ws) {
                assert(idx == sidx.push(x));
                assert(sidx.push(x).len() == sidx.len() + 1);
                assert(0 <= t < sidx.len());
                assert(sidx.push(x)[t] == sidx[t]);
                if t + 1 < sidx.len() {
                    assert(sidx.push(x)[t + 1] == sidx[t + 1]);
                    assert(sidx[t] < sidx[t + 1]);
                } else {
                    assert(sidx.push(x)[t + 1] == x);
                    assert(0 <= sidx[t] < sub.len());
                }
            } else {
                assert(idx == sidx);
                assert(sidx[t] < sidx[t + 1]);
            }
        }
    }
}

/// An asset of unrecognized shape — anything without a string `label` —
/// survives every whitelist filtering.
pub proof fn lemma_unrecognized_asset_retained(
    assets: Seq<JsonView>,
    ws: Seq<Seq<char>>,
    a: int,
)
    requires
        0 <= a < assets.len(),
        spec_asset_label(assets[a]) is None,
    ensures
        spec_filter_assets(assets, ws).contains(assets[a]),
    decreases assets.len(),
{
    let out = spec_filter_assets(assets, ws);
    if a == assets.len() - 1 {
        assert(spec_asset_kept(assets[a], ws));
        assert(out[out.len() - 1] == assets[a]);
    } else {
        let sub = assets.subrange(0, assets.len() - 1);
        assert(forall|j: int| 0 <= j < sub.len() ==> (#[trigger] sub[j]) == assets[j]);
        lemma_unrecognized_asset_retained(sub, ws, a);
        let rest = spec_filter_assets(sub, ws);
        let w = choose|w: int| 0 <= w < rest.len() && rest[w] == assets[a];
        assert(out[w] == assets[a]);
    }
}

} // verus!

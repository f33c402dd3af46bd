//! The manifest model and the configuration around it.
//!
//! A manifest is parsed from JSON text into the order-preserving tree of
//! [`crate::json`], filtered in place by the whitelist, and written back
//! as pretty-printed text. Parsing goes through serde_json; everything
//! after it is verified against the parsed tree.

use vstd::prelude::*;
use vstd::string::StringExecFns;

use crate::error::Error;
use crate::filter::filter_plugins;
use crate::filter::find_key;
use crate::filter::spec_apply_manifest;
use crate::filter::spec_apply_plugins;
use crate::filter::spec_manifest_modified;
use crate::json::arr_view;
use crate::json::clone_entries_range;
use crate::json::entries_view;
use crate::json::lemma_arr_view;
use crate::json::lemma_entries_view;
use crate::json::JsonValue;
use crate::json::JsonView;
use crate::render::render_document;
use crate::render::spec_render;

verus! {

broadcast use lemma_arr_view, lemma_entries_view;

/// Where the caller wants the modified manifest written.
#[derive(Debug)]
pub enum WriteTo {
    Stdout,
    InPlace,
}

/// Whether applying the whitelist dropped at least one asset.
#[derive(Clone, Debug, Eq, PartialEq, Structural)]
pub enum ModifiedFlag {
    Unmodified,
    Modified,
}

/// The manifest text is not a JSON object document.
#[derive(Debug)]
pub struct ParseError {
    pub message: String,
}

/// The serde_json value type, used only while a parsed document is being
/// converted into the crate's own tree.
#[verifier::external_type_specification]
#[verifier::external_body]
pub struct ExSerdeValue(serde_json::Value);

/// The document that parsing yields for a given text: the members of the
/// top-level JSON object, in their original order, or nothing when the
/// text is not such a document. Parsing depends on the text alone.
pub uninterp spec fn parsed_manifest(text: Seq<char>) -> Option<Seq<(Seq<char>, JsonView)>>;

/// Relies on serde_json::Value: carries each JSON shape over into the
/// crate's own tree, one variant arm each; a number becomes its decimal
/// rendering, and object members keep their order.
#[verifier::external_body]
fn value_from_serde(v: serde_json::Value) -> JsonValue {
    match v {
        serde_json::Value::Null => JsonValue::Null,
        serde_json::Value::Bool(b) => JsonValue::Bool(b),
        serde_json::Value::Number(n) => JsonValue::Num(n.to_string()),
        serde_json::Value::String(s) => JsonValue::Str(s),
        serde_json::Value::Array(items) => JsonValue::Arr(
            items.into_iter().map(value_from_serde).collect(),
        ),
        serde_json::Value::Object(members) => JsonValue::Obj(
            members.into_iter().map(|(k, m)| (k, value_from_serde(m))).collect(),
        ),
    }
}

/// Relies on serde_json::from_str: the text parses exactly when it is one
/// JSON object document, and always to the same members in the same order
/// (the `preserve_order` feature keeps the parsed key order).
#[verifier::external_body]
fn parse_object_text(text: &str) -> (r: Result<Vec<(String, JsonValue)>, String>)
    ensures
        r is Ok <==> parsed_manifest(text@) is Some,
        r is Ok ==> entries_view(r->Ok_0@) == parsed_manifest(text@)->Some_0,
{
    match serde_json::from_str::<serde_json::Map<String, serde_json::Value>>(text) {
        Ok(members) => Ok(members.into_iter().map(|(k, m)| (k, value_from_serde(m))).collect()),
        Err(e) => Err(e.to_string()),
    }
}

/// A semantic-release manifest: the top-level JSON object of the
/// configuration document, every member kept in parsed order.
#[derive(Debug)]
pub struct SemanticReleaseManifest {
    entries: Vec<(String, JsonValue)>,
}

impl View for SemanticReleaseManifest {
    type V = Seq<(Seq<char>, JsonView)>;

    closed spec fn view(&self) -> Seq<(Seq<char>, JsonView)> {
        entries_view(self.entries@)
    }
}

impl SemanticReleaseManifest {
    /// Parses manifest text. Succeeds exactly when the text is one JSON
    /// object document, and yields that document unchanged.
    pub fn parse_from_string(text: &str) -> (r: Result<Self, ParseError>)
        ensures
            r is Ok <==> parsed_manifest(text@) is Some,
            r is Ok ==> r->Ok_0@ == parsed_manifest(text@)->Some_0,
    {
        match parse_object_text(text) {
            Ok(entries) => Ok(SemanticReleaseManifest { entries }),
            Err(message) => Err(ParseError { message }),
        }
    }

    /// Keeps, in the target plugin's assets, the labelled assets whose
    /// label is whitelisted, and everything else in the document as it
    /// is; says whether any asset was dropped.
    pub fn apply_whitelist(&mut self, whitelist: &Vec<String>) -> (r: ModifiedFlag)
        ensures
            final(self)@ == spec_apply_manifest(old(self)@, whitelist.deep_view()),
            (r == ModifiedFlag::Modified) == spec_manifest_modified(
                old(self)@,
                whitelist.deep_view(),
            ),
    {
        let ghost ws = whitelist.deep_view();
        let ghost ev = entries_view(self.entries@);
        let key = String::from_str("plugins");
        let n = self.entries.len();
        match find_key(&self.entries, &key) {
            None => ModifiedFlag::Unmodified,
            Some(i) => {
                match &self.entries[i].1 {
                    JsonValue::Arr(plugins) => {
                        let ghost pv = arr_view(plugins@);
                        let (new_plugins, modified) = filter_plugins(plugins, whitelist);
                        let ghost npv = arr_view(new_plugins@);
                        let mut out: Vec<(String, JsonValue)> = Vec::new();
                        clone_entries_range(&self.entries, 0, i, &mut out);
                        let k = self.entries[i].0.clone();
                        out.push((k, JsonValue::Arr(new_plugins)));
                        clone_entries_range(&self.entries, i + 1, n, &mut out);
                        self.entries = out;
                        proof {
                            assert(ev[i as int].1 == JsonView::Arr(pv));
                            assert(npv == spec_apply_plugins(pv, ws));
                            assert(entries_view(self.entries@) =~= ev.update(
                                i as int,
                                (ev[i as int].0, JsonView::Arr(npv)),
                            ));
                        }
                        if modified {
                            ModifiedFlag::Modified
                        } else {
                            ModifiedFlag::Unmodified
                        }
                    },
                    _ => ModifiedFlag::Unmodified,
                }
            },
        }
    }

    /// Whether two manifests hold structurally equal documents.
    pub fn structurally_equal(&self, other: &Self) -> (r: bool)
        ensures
            r == (self@ == other@),
    {
        if self.entries.len() != other.entries.len() {
            false
        } else {
            let r = crate::json::eq_entries_from(&self.entries, &other.entries, 0);
            proof {
                let x = self.entries@;
                let y = other.entries@;
                if r {
                    assert(entries_view(x) =~= entries_view(y));
                } else {
                    let j = choose|j: int|
                        0 <= j < x.len() && !(x[j].0@ == y[j].0@ && x[j].1@ == y[j].1@);
                    assert(entries_view(x)[j] == (x[j].0@, x[j].1@));
                    assert(entries_view(y)[j] == (y[j].0@, y[j].1@));
                }
            }
            r
        }
    }

    /// The manifest as pretty-printed JSON text, without a trailing
    /// newline.
    pub fn to_string(&self) -> (r: String)
        ensures
            r@ == spec_render(JsonView::Obj(self@), 0),
    {
        render_document(&self.entries)
    }
}

/// A configuration file's manifest together with the path it came from
/// and whether a whitelist application changed it.
pub struct SemanticReleaseConfiguration {
    manifest: SemanticReleaseManifest,
    manifest_path: String,
    dirty: ModifiedFlag,
}

impl SemanticReleaseConfiguration {
    /// The manifest's document.
    pub closed spec fn spec_manifest(&self) -> Seq<(Seq<char>, JsonView)> {
        self.manifest@
    }

    /// The path the configuration was read from.
    pub closed spec fn spec_path(&self) -> Seq<char> {
        self.manifest_path@
    }

    /// Whether a whitelist application dropped anything so far.
    pub closed spec fn spec_dirty(&self) -> ModifiedFlag {
        self.dirty
    }

    /// Builds the configuration from the text read at `path`. Succeeds
    /// exactly when the text parses; a failure is a parse error naming
    /// that path.
    pub fn from_manifest_text(text: &str, path: String) -> (r: Result<Self, Error>)
        ensures
            r is Ok <==> parsed_manifest(text@) is Some,
            r is Ok ==> r->Ok_0.spec_manifest() == parsed_manifest(text@)->Some_0
                && r->Ok_0.spec_path() == path@ && r->Ok_0.spec_dirty() == ModifiedFlag::Unmodified,
            r is Err ==> (r->Err_0 matches Error::FileParseError { message: _, path: p } && p@
                == path@),
    {
        match SemanticReleaseManifest::parse_from_string(text) {
            Ok(manifest) => Ok(
                SemanticReleaseConfiguration {
                    manifest,
                    manifest_path: path,
                    dirty: ModifiedFlag::Unmodified,
                },
            ),
            Err(e) => Err(Error::FileParseError { message: e.message, path }),
        }
    }

    /// Applies the whitelist to the manifest and remembers whether
    /// anything was ever dropped.
    pub fn apply_whitelist(&mut self, whitelist: &Vec<String>)
        ensures
            final(self).spec_manifest() == spec_apply_manifest(
                old(self).spec_manifest(),
                whitelist.deep_view(),
            ),
            final(self).spec_path() == old(self).spec_path(),
            final(self).spec_dirty() == if spec_manifest_modified(
                old(self).spec_manifest(),
                whitelist.deep_view(),
            ) {
                ModifiedFlag::Modified
            } else {
                old(self).spec_dirty()
            },
    {
        let modified = self.manifest.apply_whitelist(whitelist);
        if modified == ModifiedFlag::Modified {
            self.dirty = ModifiedFlag::Modified;
        }
    }

    /// The text to write, with its trailing newline, exactly when a
    /// whitelist application dropped something; nothing otherwise, so
    /// that an unmodified file is never rewritten.
    pub fn render_if_modified(&self) -> (r: Option<String>)
        ensures
            (r is Some) == (self.spec_dirty() == ModifiedFlag::Modified),
            r is Some ==> r->Some_0@ == spec_render(JsonView::Obj(self.spec_manifest()), 0)
                + "\n"@,
    {
        match self.dirty {
            ModifiedFlag::Unmodified => None,
            ModifiedFlag::Modified => {
                let mut s = self.manifest.to_string();
                s.append("\n");
                Some(s)
            },
        }
    }

    /// The path the configuration was read from.
    pub fn manifest_path(&self) -> (r: &String)
        ensures
            r@ == self.spec_path(),
    {
        &self.manifest_path
    }
}

} // verus!

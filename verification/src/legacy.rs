use vstd::prelude::*;
use crate::preview::AttrModel;
use crate::preview::MimeType;

verus! {

/// A raw JSON value of the legacy attribute mapping, reduced to what this
/// core reads of it: either a JSON string, or any other JSON value.
#[derive(Debug, PartialEq)]
pub enum LegacyAttrValue {
    Text(String),
    Other,
}

/// The mathematical shape of a legacy attribute value.
pub ghost enum AttrValModel {
    Text(Seq<char>),
    Other,
}

impl View for LegacyAttrValue {
    type V = AttrValModel;

    open spec fn view(&self) -> AttrValModel {
        match self {
            LegacyAttrValue::Text(s) => AttrValModel::Text(s@),
            LegacyAttrValue::Other => AttrValModel::Other,
        }
    }
}

/// The string a legacy attribute value coerces to when imported into a
/// preview: its own text where it is a JSON string, the empty string for
/// any other value — a deliberate leniency of the legacy import.
pub open spec fn coerced_text(v: AttrValModel) -> Seq<char> {
    match v {
        AttrValModel::Text(s) => s,
        AttrValModel::Other => Seq::<char>::empty(),
    }
}

/// The credential offer in the legacy schema used by older agents: a flat
/// message with an attribute mapping and the raw offer payload embedded
/// as JSON text.
#[derive(Debug)]
pub struct CredentialOfferV1 {
    pub msg_type: String,
    pub version: String,
    pub to_did: String,
    pub from_did: String,
    /// The attribute mapping, name to raw value; names are kept unique,
    /// as a JSON object's keys are.
    pub credential_attrs: Vec<(String, LegacyAttrValue)>,
    pub schema_seq_no: u64,
    pub claim_name: String,
    pub claim_id: String,
    pub msg_ref_id: Option<String>,
    pub cred_def_id: String,
    pub libindy_offer: String,
    pub thread_id: Option<String>,
}

/// The mathematical shape of a legacy credential offer.
pub ghost struct LegacyModel {
    pub msg_type: Seq<char>,
    pub version: Seq<char>,
    pub to_did: Seq<char>,
    pub from_did: Seq<char>,
    pub credential_attrs: Seq<(Seq<char>, AttrValModel)>,
    pub schema_seq_no: u64,
    pub claim_name: Seq<char>,
    pub claim_id: Seq<char>,
    pub msg_ref_id: Option<Seq<char>>,
    pub cred_def_id: Seq<char>,
    pub libindy_offer: Seq<char>,
    pub thread_id: Option<Seq<char>>,
}

/// The shape of an attribute mapping.
pub open spec fn attrs_model(s: Seq<(String, LegacyAttrValue)>) -> Seq<(Seq<char>, AttrValModel)> {
    s.map_values(|p: (String, LegacyAttrValue)| (p.0@, p.1@))
}

impl View for CredentialOfferV1 {
    type V = LegacyModel;

    open spec fn view(&self) -> LegacyModel {
        LegacyModel {
            msg_type: self.msg_type@,
            version: self.version@,
            to_did: self.to_did@,
            from_did: self.from_did@,
            credential_attrs: attrs_model(self.credential_attrs@),
            schema_seq_no: self.schema_seq_no,
            claim_name: self.claim_name@,
            claim_id: self.claim_id@,
            msg_ref_id: self.msg_ref_id.deep_view(),
            cred_def_id: self.cred_def_id@,
            libindy_offer: self.libindy_offer@,
            thread_id: self.thread_id.deep_view(),
        }
    }
}

/// The index of the first pair of `s` named `k`, or `-1` where none is.
pub open spec fn key_index(s: Seq<(Seq<char>, AttrValModel)>, k: Seq<char>) -> int
    decreases s.len(),
{
    if s.len() == 0 {
        -1
    } else if s[0].0 == k {
        0
    } else if key_index(s.skip(1), k) == -1 {
        -1
    } else {
        key_index(s.skip(1), k) + 1
    }
}

/// Map-like insertion into an attribute mapping: where the name already
/// stands its value is overwritten in place, else the pair is appended.
pub open spec fn upsert(
    s: Seq<(Seq<char>, AttrValModel)>,
    k: Seq<char>,
    v: AttrValModel,
) -> Seq<(Seq<char>, AttrValModel)> {
    if key_index(s, k) == -1 {
        s.push((k, v))
    } else {
        s.update(key_index(s, k), (k, v))
    }
}

/// `key_index` finds exactly the first pair with the given name.
pub proof fn lemma_key_index(s: Seq<(Seq<char>, AttrValModel)>, k: Seq<char>)
    ensures
        key_index(s, k) == -1 <==> (forall|j: int| 0 <= j < s.len() ==> s[j].0 != k),
        key_index(s, k) != -1 ==> 0 <= key_index(s, k) < s.len() && s[key_index(s, k)].0 == k
            && (forall|j: int| 0 <= j < key_index(s, k) ==> s[j].0 != k),
    decreases s.len(),
{
    if s.len() == 0 {
    } else if s[0].0 == k {
    } else {
        lemma_key_index(s.skip(1), k);
        assert forall|j: int| 1 <= j < s.len() implies s[j] == s.skip(1)[j - 1] by {}
    }
}

/// Whether the names of an attribute mapping are pairwise distinct.
pub open spec fn keys_unique(s: Seq<(Seq<char>, AttrValModel)>) -> bool {
    forall|i: int, j: int| 0 <= i < j < s.len() ==> s[i].0 != s[j].0
}

/// Inserts a (name, value) pair into an attribute mapping with the
/// overwrite semantics of `upsert`: a later entry with a duplicate name
/// wins over an earlier one.
pub fn insert_attr(attrs: &mut Vec<(String, LegacyAttrValue)>, name: String, value: String)
    ensures
        attrs_model(final(attrs)@) == upsert(
            attrs_model(old(attrs)@),
            name@,
            AttrValModel::Text(value@),
        ),
{
    let ghost s = attrs_model(old(attrs)@);
    let n = attrs.len();
    let mut j: usize = 0;
    while j < n
        invariant
            n == attrs.len(),
            j <= n,
            attrs@ == old(attrs)@,
            s == attrs_model(attrs@),
            forall|m: int| 0 <= m < j ==> s[m].0 != name@,
        decreases n - j,
    {
        if attrs[j].0 == name {
            proof {
                lemma_key_index(s, name@);
                assert(s[j as int].0 == name@);
                if key_index(s, name@) == -1 {
                    assert(s[j as int].0 != name@);
                }
                let ki = key_index(s, name@);
                if ki < j as int {
                    assert(s[ki].0 == name@);
                }
                if ki > j as int {
                    assert(s[j as int].0 != name@);
                }
                assert(key_index(s, name@) == j as int);
            }
            attrs[j] = (name, LegacyAttrValue::Text(value));
            proof {
                assert(attrs_model(attrs@) =~= s.update(
                    j as int,
                    (name@, AttrValModel::Text(value@)),
                ));
            }
            return ;
        }
        j = j + 1;
    }
    proof {
        lemma_key_index(s, name@);
        assert(key_index(s, name@) == -1);
    }
    attrs.push((name, LegacyAttrValue::Text(value)));
    proof {
        assert(attrs_model(attrs@) =~= s.push((name@, AttrValModel::Text(value@))));
    }
}

/// The attribute mapping rebuilt from a preview: each attribute inserted
/// in order with overwrite semantics, so of entries sharing a name the
/// last one wins.
pub open spec fn attrs_of_preview(p: Seq<AttrModel>) -> Seq<(Seq<char>, AttrValModel)>
    decreases p.len(),
{
    if p.len() == 0 {
        Seq::<(Seq<char>, AttrValModel)>::empty()
    } else {
        upsert(
            attrs_of_preview(p.drop_last()),
            p.last().name,
            AttrValModel::Text(p.last().value),
        )
    }
}

/// The preview built from an attribute mapping: each entry in order, its
/// value coerced to text, under the plain-text mime type.
pub open spec fn preview_of_attrs(attrs: Seq<(Seq<char>, AttrValModel)>) -> Seq<AttrModel> {
    attrs.map_values(
        |p: (Seq<char>, AttrValModel)|
            AttrModel { name: p.0, value: coerced_text(p.1), mime_type: MimeType::Plain },
    )
}

/// Law: an attribute mapping with pairwise-distinct names and only string
/// values comes back unchanged from a trip through a preview and back.
pub proof fn lemma_attrs_round_trip(attrs: Seq<(Seq<char>, AttrValModel)>)
    requires
        keys_unique(attrs),
        forall|j: int| 0 <= j < attrs.len() ==> attrs[j].1 is Text,
    ensures
        attrs_of_preview(preview_of_attrs(attrs)) == attrs,
    decreases attrs.len(),
{
    let p = preview_of_attrs(attrs);
    if attrs.len() == 0 {
        assert(p.len() == 0);
        assert(attrs_of_preview(p) =~= attrs);
    } else {
        let head = attrs.drop_last();
        assert(p.drop_last() =~= preview_of_attrs(head));
        lemma_attrs_round_trip(head);
        lemma_key_index(head, attrs.last().0);
        assert(forall|j: int| 0 <= j < head.len() ==> head[j].0 != attrs.last().0);
        assert(key_index(head, attrs.last().0) == -1);
        assert(p.last().name == attrs.last().0);
        assert(AttrValModel::Text(p.last().value) == attrs.last().1);
        assert(attrs_of_preview(p) == head.push((attrs.last().0, attrs.last().1)));
        assert(head.push((attrs.last().0, attrs.last().1)) =~= attrs);
    }
}

} // verus!

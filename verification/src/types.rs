//! The data shapes of the two formats: flat mapping rows on one side,
//! grouped compendium entries on the other, together with their
//! mathematical views.

use vstd::prelude::*;

verus! {

/// One tab-separated mapping record: a subject–predicate–object row.
pub struct SSSOMEntry {
    pub subject_id: String,
    pub subject_label: String,
    pub subject_category: String,
    pub predicate_id: String,
    pub object_id: String,
    pub object_label: String,
    pub object_category: String,
    pub match_type: String,
    pub other: String,
}

/// Mathematical view of a mapping row: each field as a character sequence.
#[verifier::ext_equal]
pub struct SSSOMRowV {
    pub subject_id: Seq<char>,
    pub subject_label: Seq<char>,
    pub subject_category: Seq<char>,
    pub predicate_id: Seq<char>,
    pub object_id: Seq<char>,
    pub object_label: Seq<char>,
    pub object_category: Seq<char>,
    pub match_type: Seq<char>,
    pub other: Seq<char>,
}

impl DeepView for SSSOMEntry {
    type V = SSSOMRowV;

    open spec fn deep_view(&self) -> SSSOMRowV {
        SSSOMRowV {
            subject_id: self.subject_id@,
            subject_label: self.subject_label@,
            subject_category: self.subject_category@,
            predicate_id: self.predicate_id@,
            object_id: self.object_id@,
            object_label: self.object_label@,
            object_category: self.object_category@,
            match_type: self.match_type@,
            other: self.other@,
        }
    }
}

impl Clone for SSSOMEntry {
    fn clone(&self) -> (r: Self)
        ensures
            r.deep_view() == self.deep_view(),
    {
        let r = SSSOMEntry {
            subject_id: self.subject_id.clone(),
            subject_label: self.subject_label.clone(),
            subject_category: self.subject_category.clone(),
            predicate_id: self.predicate_id.clone(),
            object_id: self.object_id.clone(),
            object_label: self.object_label.clone(),
            object_category: self.object_category.clone(),
            match_type: self.match_type.clone(),
            other: self.other.clone(),
        };
        proof {
            assert(r.deep_view() =~= self.deep_view());
        }
        r
    }
}

/// The composite grouping key: rows agree on it exactly when they belong to
/// the same canonical entry.
pub struct GroupKey {
    pub category: String,
    pub id: String,
    pub label: String,
}

/// View of a grouping key.
#[verifier::ext_equal]
pub struct GroupKeyV {
    pub category: Seq<char>,
    pub id: Seq<char>,
    pub label: Seq<char>,
}

impl DeepView for GroupKey {
    type V = GroupKeyV;

    open spec fn deep_view(&self) -> GroupKeyV {
        GroupKeyV { category: self.category@, id: self.id@, label: self.label@ }
    }
}

/// The grouping key of a row: its subject category, identifier and label.
pub open spec fn key_of(r: SSSOMRowV) -> GroupKeyV {
    GroupKeyV { category: r.subject_category, id: r.subject_id, label: r.subject_label }
}

/// One identifier of a compendium entry: an id with an optional label.
pub struct CompendiaIdentifier {
    pub id: String,
    pub label: String,
}

/// View of a compendium identifier pair.
#[verifier::ext_equal]
pub struct IdPairV {
    pub id: Seq<char>,
    pub label: Seq<char>,
}

impl DeepView for CompendiaIdentifier {
    type V = IdPairV;

    open spec fn deep_view(&self) -> IdPairV {
        IdPairV { id: self.id@, label: self.label@ }
    }
}

/// One grouped output record: the entry type, an optional information-content
/// score, and the ordered synonymous identifiers with the canonical pair first.
pub struct CompendiaEntry {
    pub compendia_type: String,
    pub information_content: Option<String>,
    pub identifiers: Vec<CompendiaIdentifier>,
}

/// View of a compendium entry.
#[verifier::ext_equal]
pub struct CompendiaEntryV {
    pub compendia_type: Seq<char>,
    pub information_content: Option<Seq<char>>,
    pub identifiers: Seq<IdPairV>,
}

impl DeepView for CompendiaEntry {
    type V = CompendiaEntryV;

    open spec fn deep_view(&self) -> CompendiaEntryV {
        CompendiaEntryV {
            compendia_type: self.compendia_type@,
            information_content: self.information_content.deep_view(),
            identifiers: self.identifiers.deep_view(),
        }
    }
}

/// Why a conversion call failed: a row that does not split into the nine
/// mapping-table fields, or an `other` payload that is not valid JSON.
#[derive(Debug)]
pub enum ConversionError {
    RowParse,
    PayloadParse,
}

/// A line handed to one of the stream filters was not shaped as the filter
/// requires; the whole filtering call fails.
#[derive(Debug)]
pub enum FilterError {
    MalformedLine,
}

} // verus!

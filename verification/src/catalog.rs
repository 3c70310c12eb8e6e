//! The preset catalog: every accepted document, sorted by title.
//!
//! A document is accepted when it parses wholly, carries the supported
//! profile type, and yields a title, notes and step text; any failure skips
//! that one document.  The catalog is built once from the bundled documents
//! and only read afterwards.

use vstd::multiset::Multiset;
use vstd::prelude::*;

use crate::command::ProfileType;
use crate::parser::{spec_steps, steps, steps_view};
use crate::profile::{
    analyze, parse_profile, spec_analyze, spec_has_profile_type, spec_parse_profile,
    spec_profile_notes, spec_profile_shot, spec_profile_title, AnalyzedProfile, AnalyzedV, Preset,
    PresetV,
};
use crate::scan::{lex_le, lemma_lex_le_refl, lemma_lex_le_total, lemma_lex_le_trans, str_eq, str_le};
use crate::Error;

verus! {

/// The values of a document list: names and contents as character
/// sequences.
pub open spec fn docs_view(docs: Seq<(String, String)>) -> Seq<(Seq<char>, Seq<char>)> {
    docs.map_values(|d: (String, String)| (d.0@, d.1@))
}

/// The values of a preset list.
pub open spec fn presets_view(items: Seq<Preset>) -> Seq<PresetV> {
    items.map_values(|p: Preset| p@)
}

/// The preset one document yields: parse it wholly, keep it only with the
/// supported profile type, and require title, notes and step text.
pub open spec fn spec_build_entry(name: Seq<char>, content: Seq<char>) -> Option<PresetV> {
    match spec_parse_profile(content) {
        Err(_) => None,
        Ok(cmds) => {
            if !spec_has_profile_type(cmds, ProfileType::Settings2C) {
                None
            } else {
                match (spec_profile_title(cmds), spec_profile_notes(cmds), spec_profile_shot(
                    cmds,
                )) {
                    (Some(t), Some(no), Some(d)) => Some(
                        PresetV { name: name, title: t, notes: no, data: d },
                    ),
                    _ => None,
                }
            }
        },
    }
}

/// The presets of the documents from index `i` on, in document order.
pub open spec fn spec_entries_from(docs: Seq<(Seq<char>, Seq<char>)>, i: int) -> Seq<PresetV>
    decreases docs.len() - i when 0 <= i <= docs.len()
{
    if i < 0 || i >= docs.len() {
        Seq::empty()
    } else {
        let rest = spec_entries_from(docs, i + 1);
        match spec_build_entry(docs[i].0, docs[i].1) {
            Some(p) => seq![p] + rest,
            None => rest,
        }
    }
}

/// The presets a document list yields, before sorting.
pub open spec fn spec_catalog_entries(docs: Seq<(Seq<char>, Seq<char>)>) -> Seq<PresetV> {
    spec_entries_from(docs, 0)
}

/// Presets in title order, byte-for-byte by codepoint.
pub open spec fn sorted_by_title(items: Seq<PresetV>) -> bool {
    forall|i: int, j: int|
        0 <= i < j < items.len() ==> lex_le(#[trigger] items[i].title, #[trigger] items[j].title)
}

/// The read-only catalog of accepted presets, sorted by title.
pub struct Catalog {
    pub items: Vec<Preset>,
}

/// The first preset at or after `i` with the given name.
pub open spec fn spec_find_from(items: Seq<PresetV>, name: Seq<char>, i: int) -> Option<PresetV>
    decreases items.len() - i when 0 <= i <= items.len()
{
    if i < 0 || i >= items.len() {
        None
    } else if items[i].name == name {
        Some(items[i])
    } else {
        spec_find_from(items, name, i + 1)
    }
}

/// The first preset with the given name.
pub open spec fn spec_find_preset(items: Seq<PresetV>, name: Seq<char>) -> Option<PresetV> {
    spec_find_from(items, name, 0)
}

/// The analysis a preset's step text yields: parse the steps, then draw
/// the traces.
pub open spec fn spec_analyze_preset(p: PresetV) -> Result<AnalyzedV, Error> {
    spec_analyze(spec_steps(p.data, 0).1)
}

impl Catalog {
    /// Builds the catalog from named documents.
    ///
    /// Keeps exactly the documents' accepted presets, sorted by title.
    pub fn build(docs: &Vec<(String, String)>) -> (r: Catalog)
        ensures
            presets_view(r.items@).to_multiset() == spec_catalog_entries(
                docs_view(docs@),
            ).to_multiset(),
            sorted_by_title(presets_view(r.items@)),
    {
        let ghost dv = docs_view(docs@);
        let mut pending: Vec<Preset> = Vec::new();
        let n = docs.len();
        let mut i: usize = 0;
        while i < n
            invariant
                0 <= i <= n == docs@.len(),
                dv == docs_view(docs@),
                presets_view(pending@) + spec_entries_from(dv, i as int) == spec_catalog_entries(
                    dv,
                ),
            decreases n - i,
        {
            proof {
                assert(dv[i as int] == (docs@[i as int].0@, docs@[i as int].1@));
            }
            match parse_profile(docs[i].1.as_str()) {
                Err(_) => {
                },
                Ok(profile) => {
                    if profile.is_profile_type(ProfileType::Settings2C) {
                        let title = profile.title();
                        let notes = profile.notes();
                        let data = profile.advanced_shot();
                        match (title, notes, data) {
                            (Some(t), Some(no), Some(d)) => {
                                let ghost old_pending = pending@;
                                let entry = Preset {
                                    name: docs[i].0.clone(),
                                    title: t,
                                    notes: no,
                                    data: d,
                                };
                                pending.push(entry);
                                proof {
                                    assert(presets_view(old_pending.push(entry)) =~= presets_view(
                                        old_pending,
                                    ).push(entry@));
                                    assert(presets_view(pending@) + spec_entries_from(
                                        dv,
                                        (i + 1) as int,
                                    ) =~= spec_catalog_entries(dv));
                                }
                            },
                            _ => {
                            },
                        }
                    }
                },
            }
            proof {
                assert(presets_view(pending@) + spec_entries_from(dv, (i + 1) as int)
                    =~= spec_catalog_entries(dv));
            }
            i = i + 1;
        }
        proof {
            assert(presets_view(pending@) =~= spec_catalog_entries(dv));
        }
        // Sort by title: repeatedly move the least remaining title over.
        let ghost m0 = presets_view(pending@).to_multiset();
        let mut items: Vec<Preset> = Vec::new();
        proof {
            broadcast use vstd::seq_lib::group_to_multiset_ensures;

            assert(presets_view(items@) =~= Seq::<PresetV>::empty());
            assert(presets_view(items@).to_multiset() =~= Multiset::<PresetV>::empty());
            assert(presets_view(items@).to_multiset().add(presets_view(pending@).to_multiset())
                =~= m0);
        }
        while pending.len() > 0
            invariant
                presets_view(items@).to_multiset().add(presets_view(pending@).to_multiset())
                    == m0,
                sorted_by_title(presets_view(items@)),
                forall|a: int, b: int|
                    0 <= a < items@.len() && 0 <= b < pending@.len() ==> lex_le(
                        #[trigger] items@[a]@.title,
                        #[trigger] pending@[b]@.title,
                    ),
            decreases pending.len(),
        {
            let len = pending.len();
            let mut best: usize = 0;
            let mut k: usize = 1;
            proof {
                lemma_lex_le_refl(pending@[0]@.title, 0);
            }
            while k < len
                invariant
                    0 <= best < k <= len == pending@.len(),
                    forall|j: int|
                        0 <= j < k ==> lex_le(
                            pending@[best as int]@.title,
                            #[trigger] pending@[j]@.title,
                        ),
                decreases len - k,
            {
                if !str_le(pending[best].title.as_str(), pending[k].title.as_str()) {
                    proof {
                        lemma_lex_le_total(pending@[best as int]@.title, pending@[k as int]@.title, 0);
                        assert forall|j: int| 0 <= j < k + 1 implies lex_le(
                            pending@[k as int]@.title,
                            #[trigger] pending@[j]@.title,
                        ) by {
                            if j < k {
                                lemma_lex_le_trans(
                                    pending@[k as int]@.title,
                                    pending@[best as int]@.title,
                                    pending@[j]@.title,
                                    0,
                                );
                            } else {
                                lemma_lex_le_refl(pending@[k as int]@.title, 0);
                            }
                        }
                    }
                    best = k;
                }
                k = k + 1;
            }
            let ghost old_items = items@;
            let ghost old_pending = pending@;
            let x = pending.remove(best);
            items.push(x);
            proof {
                broadcast use vstd::seq_lib::group_to_multiset_ensures;

                assert(presets_view(old_pending.remove(best as int)) =~= presets_view(
                    old_pending,
                ).remove(best as int));
                assert(presets_view(old_items.push(x)) =~= presets_view(old_items).push(x@));
                assert(presets_view(old_pending)[best as int] == x@);
                assert(presets_view(items@).to_multiset().add(
                    presets_view(pending@).to_multiset(),
                ) =~= m0);
                assert forall|a: int, b: int|
                    0 <= a < items@.len() && 0 <= b < pending@.len() implies lex_le(
                    #[trigger] items@[a]@.title,
                    #[trigger] pending@[b]@.title,
                ) by {
                    if a < items@.len() - 1 {
                    } else {
                        if b < best {
                        } else {
                        }
                    }
                }
            }
        }
        proof {
            broadcast use vstd::seq_lib::group_to_multiset_ensures;

            assert(presets_view(pending@) =~= Seq::<PresetV>::empty());
            assert(presets_view(pending@).to_multiset() =~= Multiset::<PresetV>::empty());
            assert(presets_view(items@).to_multiset() =~= m0);
        }
        Catalog { items }
    }

    /// Every preset's name and title, in catalog order.
    pub fn list(&self) -> (r: Vec<(String, String)>)
        ensures
            r@.len() == self.items@.len(),
            forall|i: int|
                0 <= i < r@.len() ==> (#[trigger] r@[i]).0@ == self.items@[i]@.name && r@[i].1@
                    == self.items@[i]@.title,
    {
        let mut r: Vec<(String, String)> = Vec::new();
        let n = self.items.len();
        let mut i: usize = 0;
        while i < n
            invariant
                0 <= i <= n == self.items@.len(),
                r@.len() == i,
                forall|j: int|
                    0 <= j < i ==> (#[trigger] r@[j]).0@ == self.items@[j]@.name && r@[j].1@
                        == self.items@[j]@.title,
            decreases n - i,
        {
            r.push((self.items[i].name.clone(), self.items[i].title.clone()));
            i = i + 1;
        }
        r
    }

    /// Analyzes the named preset's step text; an unknown name fails.
    pub fn analyze_by_name(&self, name: &str) -> (r: Result<AnalyzedProfile, Error>)
        ensures
            match spec_find_preset(presets_view(self.items@), name@) {
                None => r == Err::<AnalyzedProfile, Error>(Error::UnknownPresetName),
                Some(p) => match r {
                    Ok(ap) => spec_analyze_preset(p) == Ok::<AnalyzedV, Error>(ap@),
                    Err(e) => spec_analyze_preset(p) == Err::<AnalyzedV, Error>(e),
                },
            },
    {
        let n = self.items.len();
        let mut i: usize = 0;
        while i < n
            invariant
                0 <= i <= n == self.items@.len(),
                spec_find_preset(presets_view(self.items@), name@) == spec_find_from(
                    presets_view(self.items@),
                    name@,
                    i as int,
                ),
            decreases n - i,
        {
            if str_eq(self.items[i].name.as_str(), name) {
                let p = &self.items[i];
                let (_end, sts) = steps(p.data.as_str(), 0);
                return analyze(sts.as_slice());
            }
            i = i + 1;
        }
        Err(Error::UnknownPresetName)
    }
}

} // verus!

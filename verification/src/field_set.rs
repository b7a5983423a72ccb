//! Key field sets are selection-set-shaped strings.  The federation spec
//! does not allow the alias syntax in them, but the standard GraphQL parser
//! does, so a parsed field set gets a secondary check that no alias is used
//! anywhere in it.

use vstd::prelude::*;
use vstd::string::StringExecFns;
use crate::error::FederationError;
use crate::error::FederationErrorV;
use crate::error::MultipleFederationErrors;
use crate::error::SingleFederationError;
use crate::error::SingleFederationErrorV;
use crate::error::UnsupportedFeatureKind;
use crate::error::into_result_v;

verus! {

/// A field selection: an optional alias, the field name, and its
/// sub-selection if it has one.
pub struct FieldSelection {
    pub alias: Option<String>,
    pub name: String,
    pub selection_set: Option<SelectionSet>,
}

/// One selection: a field or an inline fragment.
pub enum Selection {
    Field(FieldSelection),
    InlineFragment(InlineFragmentSelection),
}

/// An inline fragment and the selections under it.
pub struct InlineFragmentSelection {
    pub selection_set: SelectionSet,
}

/// A selection set over a named composite type.
pub struct SelectionSet {
    pub ty: String,
    pub selections: Vec<Selection>,
}

pub struct FieldSelectionV {
    pub alias: Option<Seq<char>>,
    pub name: Seq<char>,
    pub selection_set: Option<Box<SelectionSetV>>,
}

pub enum SelectionV {
    Field(FieldSelectionV),
    InlineFragment(InlineFragmentSelectionV),
}

pub struct InlineFragmentSelectionV {
    pub selection_set: Box<SelectionSetV>,
}

#[verifier::ext_equal]
pub struct SelectionSetV {
    pub ty: Seq<char>,
    pub selections: Seq<SelectionV>,
}

pub open spec fn selection_set_view(s: SelectionSet) -> SelectionSetV
    decreases s,
{
    SelectionSetV { ty: s.ty@, selections: selection_seq_view(s.selections@) }
}

pub open spec fn selection_seq_view(l: Seq<Selection>) -> Seq<SelectionV>
    decreases l,
{
    if l.len() == 0 {
        Seq::empty()
    } else {
        seq![selection_view(l[0])] + selection_seq_view(l.drop_first())
    }
}

pub open spec fn selection_view(s: Selection) -> SelectionV
    decreases s,
{
    match s {
        Selection::Field(f) => SelectionV::Field(
            FieldSelectionV {
                alias: f.alias.deep_view(),
                name: f.name@,
                selection_set: match f.selection_set {
                    Some(ss) => Some(Box::new(selection_set_view(ss))),
                    None => None,
                },
            },
        ),
        Selection::InlineFragment(fr) => SelectionV::InlineFragment(
            InlineFragmentSelectionV { selection_set: Box::new(selection_set_view(fr.selection_set)) },
        ),
    }
}

/// `selection_seq_view` maps the sequence pointwise.
pub broadcast proof fn lemma_selection_seq_view_props(l: Seq<Selection>)
    ensures
        (#[trigger] selection_seq_view(l)).len() == l.len(),
        forall|k: int| 0 <= k < l.len() ==> selection_seq_view(l)[k] == selection_view(l[k]),
    decreases l.len(),
{
    if l.len() > 0 {
        lemma_selection_seq_view_props(l.drop_first());
    }
}

impl DeepView for SelectionSet {
    type V = SelectionSetV;

    open spec fn deep_view(&self) -> SelectionSetV {
        selection_set_view(*self)
    }
}

/// The text a field selection shows: `alias: name`, or just the name.
pub open spec fn field_display_v(f: FieldSelectionV) -> Seq<char> {
    match f.alias {
        Some(a) => a + ": "@ + f.name,
        None => f.name,
    }
}

/// The message reported for one aliased field.
pub open spec fn alias_error_message_v(f: FieldSelectionV) -> Seq<char> {
    "Cannot use alias \""@ + (match f.alias {
        Some(a) => a,
        None => Seq::empty(),
    }) + "\" in \""@ + field_display_v(f) + "\": aliases are not currently supported in the used directive"@
}

/// The error recorded for one aliased field.
pub open spec fn alias_error_v(f: FieldSelectionV) -> SingleFederationErrorV {
    SingleFederationErrorV::UnsupportedFeature {
        message: alias_error_message_v(f),
        kind: UnsupportedFeatureKind::Alias,
    }
}

/// The walk over one selection list: field aliases are collected and the
/// walk goes on, while an inline fragment is checked as a unit and a
/// finding below it ends the walk with that finding alone.
pub open spec fn visit_selections_v(
    errors: Seq<SingleFederationErrorV>,
    sels: Seq<SelectionV>,
) -> Result<Seq<SingleFederationErrorV>, FederationErrorV>
    decreases sels, 0int,
{
    if sels.len() == 0 {
        Ok(errors)
    } else {
        let head_result = match sels[0] {
            SelectionV::InlineFragment(fr) => match check_selection_set_v(*fr.selection_set) {
                Err(e) => Err(e),
                Ok(u) => Ok(errors),
            },
            SelectionV::Field(f) => {
                let errors1 = if f.alias is Some {
                    errors.push(alias_error_v(f))
                } else {
                    errors
                };
                match f.selection_set {
                    Some(ss) => visit_selections_v(errors1, ss.selections),
                    None => Ok(errors1),
                }
            },
        };
        match head_result {
            Err(e) => Err(e),
            Ok(errors2) => visit_selections_v(errors2, sels.drop_first()),
        }
    }
}

/// What the alias check returns for a selection set: success when no field
/// anywhere in it is aliased, else the findings as one error.
pub open spec fn check_selection_set_v(s: SelectionSetV) -> Result<(), FederationErrorV>
    decreases s.selections, 1int,
{
    match visit_selections_v(Seq::empty(), s.selections) {
        Err(e) => Err(e),
        Ok(errs) => into_result_v(errs),
    }
}

fn alias_error(alias: &String, name: &String) -> (r: SingleFederationError)
    ensures
        forall|f: FieldSelectionV|
            f.alias == Some(alias@) && f.name == name@ ==> r.deep_view() == #[trigger] alias_error_v(
                f,
            ),
{
    let mut message: String = "Cannot use alias \"".to_owned();
    message.append(alias.as_str());
    message.append("\" in \"");
    message.append(alias.as_str());
    message.append(": ");
    message.append(name.as_str());
    message.append("\": aliases are not currently supported in the used directive");
    let r = SingleFederationError::UnsupportedFeature {
        message,
        kind: UnsupportedFeatureKind::Alias,
    };
    proof {
        assert forall|f: FieldSelectionV|
            f.alias == Some(alias@) && f.name == name@ implies r.deep_view()
            == #[trigger] alias_error_v(f) by {
            assert(alias_error_message_v(f) =~= "Cannot use alias \""@ + alias@ + "\" in \""@ + (
            alias@ + ": "@ + name@)
                + "\": aliases are not currently supported in the used directive"@);
            assert(message@ =~= alias_error_message_v(f));
        }
    }
    r
}

/// Walks one selection list, collecting alias errors for fields and
/// checking inline fragments as units.
#[verifier::loop_isolation(false)]
fn visit_selections(
    errors: &mut MultipleFederationErrors,
    sels: &Vec<Selection>,
) -> (r: Result<(), FederationError>)
    ensures
        (match r {
            Ok(u) => visit_selections_v(
                old(errors).errors.deep_view(),
                selection_seq_view(sels@),
            ) == Ok::<Seq<SingleFederationErrorV>, FederationErrorV>(
                final(errors).errors.deep_view(),
            ),
            Err(e) => visit_selections_v(
                old(errors).errors.deep_view(),
                selection_seq_view(sels@),
            ) == Err::<Seq<SingleFederationErrorV>, FederationErrorV>(e.deep_view()),
        }),
    decreases sels@, 0int,
{
    proof {
        broadcast use lemma_selection_seq_view_props;

    }
    let ghost sels_v = selection_seq_view(sels@);
    let mut i: usize = 0;
    proof {
        assert(sels_v.skip(0) =~= sels_v);
    }
    while i < sels.len()
        invariant
            0 <= i <= sels.len(),
            visit_selections_v(old(errors).errors.deep_view(), sels_v) == visit_selections_v(
                errors.errors.deep_view(),
                sels_v.skip(i as int),
            ),
        decreases sels@, 0int, sels.len() - i,
    {
        proof {
            assert(sels_v.skip(i as int)[0] == sels_v[i as int]);
            assert(sels_v[i as int] == selection_view(sels@[i as int]));
            assert(sels_v.skip(i as int).drop_first() =~= sels_v.skip(i + 1));
        }
        let ghost errs_before = errors.errors.deep_view();
        match &sels[i] {
            Selection::InlineFragment(fr) => {
                proof {
                    assert(sels@[i as int] is InlineFragment);
                    assert(sels@[i as int]->InlineFragment_0 == *fr);
                    assert(decreases_to!(sels@ => sels@[i as int]));
                    assert(decreases_to!(sels@[i as int] => sels@[i as int]->InlineFragment_0));
                    assert(decreases_to!(sels@[i as int]->InlineFragment_0 => fr.selection_set));
                }
                match check_absence_of_aliases(&fr.selection_set) {
                    Ok(u) => {},
                    Err(e) => {
                        proof {
                            assert(visit_selections_v(errs_before, sels_v.skip(i as int))
                                == Err::<Seq<SingleFederationErrorV>, FederationErrorV>(
                                e.deep_view(),
                            ));
                        }
                        return Err(e);
                    },
                }
            },
            Selection::Field(f) => {
                match &f.alias {
                    Some(a) => {
                        let err = alias_error(a, &f.name);
                        errors.errors.push(err);
                        proof {
                            assert(errors.errors.deep_view() =~~= errs_before.push(
                                alias_error_v(selection_view(sels@[i as int])->Field_0),
                            ));
                        }
                    },
                    None => {},
                }
                match &f.selection_set {
                    Some(ss) => {
                        proof {
                            assert(sels@[i as int] is Field);
                            assert(sels@[i as int]->Field_0.selection_set == Some(*ss));
                            assert(decreases_to!(sels@ => sels@[i as int]));
                            assert(decreases_to!(sels@[i as int] => sels@[i as int]->Field_0));
                            assert(decreases_to!(sels@[i as int]->Field_0 => sels@[
                                i as int]->Field_0.selection_set));
                            assert(decreases_to!(sels@[i as int]->Field_0.selection_set => *ss));
                            assert(decreases_to!(*ss => ss.selections));
                            assert(decreases_to!(ss.selections => ss.selections@));
                        }
                        let ghost errs_mid = errors.errors.deep_view();
                        match visit_selections(errors, &ss.selections) {
                            Ok(u) => {},
                            Err(e) => {
                                proof {
                                    assert(visit_selections_v(errs_before, sels_v.skip(i as int))
                                        == Err::<Seq<SingleFederationErrorV>, FederationErrorV>(
                                        e.deep_view(),
                                    ));
                                }
                                return Err(e);
                            },
                        }
                    },
                    None => {},
                }
            },
        }
        proof {
            assert(visit_selections_v(errs_before, sels_v.skip(i as int)) == visit_selections_v(
                errors.errors.deep_view(),
                sels_v.skip(i + 1),
            ));
        }
        i = i + 1;
    }
    proof {
        assert(sels_v.skip(sels.len() as int) =~= Seq::<SelectionV>::empty());
    }
    Ok(())
}

/// Checks that no field anywhere in the selection set uses an alias: the
/// federation spec does not allow the alias syntax in field set strings,
/// though the general-purpose GraphQL parser accepts it.
pub fn check_absence_of_aliases(selection_set: &SelectionSet) -> (r: Result<(), FederationError>)
    ensures
        (match r {
            Ok(u) => check_selection_set_v(selection_set.deep_view()) == Ok::<
                (),
                FederationErrorV,
            >(()),
            Err(e) => check_selection_set_v(selection_set.deep_view()) == Err::<
                (),
                FederationErrorV,
            >(e.deep_view()),
        }),
    decreases *selection_set, 1int,
{
    let mut errors = MultipleFederationErrors { errors: Vec::new() };
    proof {
        assert(errors.errors.deep_view() =~= Seq::<SingleFederationErrorV>::empty());
        assert(decreases_to!(*selection_set => selection_set.selections));
        assert(decreases_to!(selection_set.selections => selection_set.selections@));
    }
    match visit_selections(&mut errors, &selection_set.selections) {
        Err(e) => Err(e),
        Ok(u) => errors.into_result(),
    }
}

} // verus!

//! Federation error values: a single error, or a collection gathered while
//! a check kept going to report as much as it could.

use vstd::prelude::*;
use vstd::string::StringExecFns;

verus! {

/// The feature class an `UnsupportedFeature` error reports.
#[derive(Clone, Copy, PartialEq, Eq, Structural, Debug)]
pub enum UnsupportedFeatureKind {
    Alias,
}

impl DeepView for UnsupportedFeatureKind {
    type V = UnsupportedFeatureKind;

    open spec fn deep_view(&self) -> UnsupportedFeatureKind {
        *self
    }
}

/// One federation error.
pub enum SingleFederationError {
    Internal { message: String },
    UnsupportedFeature { message: String, kind: UnsupportedFeatureKind },
}

/// Ghost counterpart of [`SingleFederationError`].
pub enum SingleFederationErrorV {
    Internal { message: Seq<char> },
    UnsupportedFeature { message: Seq<char>, kind: UnsupportedFeatureKind },
}

impl DeepView for SingleFederationError {
    type V = SingleFederationErrorV;

    open spec fn deep_view(&self) -> SingleFederationErrorV {
        match self {
            SingleFederationError::Internal { message } => SingleFederationErrorV::Internal {
                message: message@,
            },
            SingleFederationError::UnsupportedFeature { message, kind } => {
                SingleFederationErrorV::UnsupportedFeature { message: message@, kind: *kind }
            },
        }
    }
}

/// The message a single error shows.
pub open spec fn single_error_message_v(e: SingleFederationErrorV) -> Seq<char> {
    match e {
        SingleFederationErrorV::Internal { message } => message,
        SingleFederationErrorV::UnsupportedFeature { message, kind } => message,
    }
}

impl SingleFederationError {
    /// The error's message text.
    pub fn message(&self) -> (r: &String)
        ensures
            r@ == single_error_message_v(self.deep_view()),
    {
        match self {
            SingleFederationError::Internal { message } => message,
            SingleFederationError::UnsupportedFeature { message, kind: _ } => message,
        }
    }

    /// Copies the error.
    pub fn duplicate(&self) -> (r: SingleFederationError)
        ensures
            r.deep_view() == self.deep_view(),
    {
        match self {
            SingleFederationError::Internal { message } => SingleFederationError::Internal {
                message: message.clone(),
            },
            SingleFederationError::UnsupportedFeature { message, kind } => {
                SingleFederationError::UnsupportedFeature { message: message.clone(), kind: *kind }
            },
        }
    }
}

/// A federation error: one error, or several reported together.
pub enum FederationError {
    Single(SingleFederationError),
    Multiple(Vec<SingleFederationError>),
}

/// Ghost counterpart of [`FederationError`].
pub enum FederationErrorV {
    Single(SingleFederationErrorV),
    Multiple(Seq<SingleFederationErrorV>),
}

impl DeepView for FederationError {
    type V = FederationErrorV;

    open spec fn deep_view(&self) -> FederationErrorV {
        match self {
            FederationError::Single(e) => FederationErrorV::Single(e.deep_view()),
            FederationError::Multiple(es) => FederationErrorV::Multiple(es.deep_view()),
        }
    }
}

/// The combined text a multi-error report shows: a heading, then each
/// message on its own indented line.
pub open spec fn multiple_errors_message_v(errors: Seq<SingleFederationErrorV>) -> Seq<char>
    decreases errors.len(),
{
    if errors.len() == 0 {
        "The following errors occurred:"@
    } else {
        multiple_errors_message_v(errors.drop_last()) + "\n  - "@ + single_error_message_v(
            errors.last(),
        )
    }
}

/// The message a federation error shows.
pub open spec fn federation_error_message_v(e: FederationErrorV) -> Seq<char> {
    match e {
        FederationErrorV::Single(s) => single_error_message_v(s),
        FederationErrorV::Multiple(es) => multiple_errors_message_v(es),
    }
}

impl FederationError {
    /// Renders the error as the text a user sees.
    #[verifier::loop_isolation(false)]
    pub fn message(&self) -> (r: String)
        ensures
            r@ == federation_error_message_v(self.deep_view()),
    {
        match self {
            FederationError::Single(e) => e.message().clone(),
            FederationError::Multiple(es) => {
                let mut out: String = "The following errors occurred:".to_owned();
                let mut i: usize = 0;
                proof {
                    assert(es.deep_view().take(0) =~= Seq::<SingleFederationErrorV>::empty());
                }
                while i < es.len()
                    invariant
                        0 <= i <= es.len(),
                        out@ == multiple_errors_message_v(es.deep_view().take(i as int)),
                    decreases es.len() - i,
                {
                    proof {
                        assert(es.deep_view().take(i + 1).drop_last() =~= es.deep_view().take(
                            i as int,
                        ));
                        assert(es.deep_view().take(i + 1).last() == es.deep_view()[i as int]);
                    }
                    out.append("\n  - ");
                    out.append(es[i].message().as_str());
                    i = i + 1;
                }
                proof {
                    assert(es.deep_view().take(es.len() as int) =~= es.deep_view());
                }
                out
            },
        }
    }
}

/// A collection of errors a check fills while it keeps going.
pub struct MultipleFederationErrors {
    pub errors: Vec<SingleFederationError>,
}

/// What a filled error collection turns into: nothing when empty, the one
/// error alone, or the whole list.
pub open spec fn into_result_v(errors: Seq<SingleFederationErrorV>) -> Result<
    (),
    FederationErrorV,
> {
    if errors.len() == 0 {
        Ok(())
    } else if errors.len() == 1 {
        Err(FederationErrorV::Single(errors[0]))
    } else {
        Err(FederationErrorV::Multiple(errors))
    }
}

impl MultipleFederationErrors {
    /// Turns the gathered errors into a result: success when none were
    /// recorded, the single error alone, or all of them together.
    pub fn into_result(self) -> (r: Result<(), FederationError>)
        ensures
            (match r {
                Ok(u) => into_result_v(self.errors.deep_view()) == Ok::<(), FederationErrorV>(()),
                Err(e) => into_result_v(self.errors.deep_view()) == Err::<(), FederationErrorV>(
                    e.deep_view(),
                ),
            }),
    {
        if self.errors.len() == 0 {
            Ok(())
        } else if self.errors.len() == 1 {
            let mut errors = self.errors;
            let e = errors.remove(0);
            Err(FederationError::Single(e))
        } else {
            Err(FederationError::Multiple(self.errors))
        }
    }
}

} // verus!

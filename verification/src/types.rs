//! The types of the model and of the parent model, taken from the generic
//! arguments of the trait.

use vstd::prelude::*;
use crate::error::{Error, ErrorKind, Span};

verus! {

/// What a generic argument is.
#[derive(Clone, Copy, Debug, PartialEq, Eq, Structural)]
pub enum ArgKind {
    /// A type, such as `AppModel` or `()`.
    Type,
    /// A lifetime, such as `'a`.
    Lifetime,
    /// A constant, such as `3` or `{ N + 1 }`.
    Const,
    /// A binding or a bound of an associated type, such as `Item = u8`.
    Binding,
}

/// One generic argument: what it is, its text and its place.
#[derive(Debug, PartialEq, Eq)]
pub struct GenericArg {
    pub kind: ArgKind,
    pub text: String,
    pub span: Span,
}

/// The view of [`GenericArg`]: its texts as sequences of characters.
pub ghost struct GenericArgModel {
    pub kind: ArgKind,
    pub text: Seq<char>,
    pub span: Span,
}

impl View for GenericArg {
    type V = GenericArgModel;

    open spec fn view(&self) -> GenericArgModel {
        GenericArgModel { kind: self.kind, text: self.text@, span: self.span }
    }
}

/// The views of a sequence of generic arguments.
pub open spec fn args_view(v: Seq<GenericArg>) -> Seq<GenericArgModel> {
    v.map_values(|a: GenericArg| a@)
}

/// A list of generic arguments in angle brackets, and its place.
#[derive(Debug, PartialEq, Eq)]
pub struct GenericArgs {
    pub args: Vec<GenericArg>,
    pub span: Span,
}

/// The view of [`GenericArgs`]: its texts as sequences of characters.
pub ghost struct GenericArgsModel {
    pub args: Seq<GenericArgModel>,
    pub span: Span,
}

impl View for GenericArgs {
    type V = GenericArgsModel;

    open spec fn view(&self) -> GenericArgsModel {
        GenericArgsModel { args: args_view(self.args@), span: self.span }
    }
}

/// The view of a list of generic arguments that may be missing.
pub open spec fn opt_args(g: Option<GenericArgs>) -> Option<GenericArgsModel> {
    match g {
        Some(list) => Some(list@),
        None => None,
    }
}

/// The types of the model and of the parent model.
#[derive(Debug, PartialEq, Eq)]
pub struct ModelTypes {
    pub model: String,
    pub parent_model: String,
}

/// The view of [`ModelTypes`]: its texts as sequences of characters.
pub ghost struct ModelTypesModel {
    pub model: Seq<char>,
    pub parent_model: Seq<char>,
}

impl View for ModelTypes {
    type V = ModelTypesModel;

    open spec fn view(&self) -> ModelTypesModel {
        ModelTypesModel { model: self.model@, parent_model: self.parent_model@ }
    }
}

/// The view of a result that holds model types.
pub open spec fn types_result(r: Result<ModelTypes, Error>) -> Result<ModelTypesModel, Error> {
    match r {
        Ok(types) => Ok(types@),
        Err(e) => Err(e),
    }
}

/// The texts of the type arguments among the first `i` arguments, in their
/// order.
pub open spec fn type_args(args: Seq<GenericArgModel>, i: nat) -> Seq<Seq<char>>
    decreases i,
{
    if i == 0 || i > args.len() {
        Seq::empty()
    } else {
        type_args(args, (i - 1) as nat) + (if args[i - 1].kind == ArgKind::Type {
            seq![args[i - 1].text]
        } else {
            Seq::empty()
        })
    }
}

/// The model types that a list of generic arguments names: where exactly
/// two of the arguments are types, the first is the model and the second
/// the parent model; any other list is an error at the place of the list.
pub open spec fn model_types_of(generics: GenericArgsModel) -> Result<ModelTypesModel, Error> {
    let types = type_args(generics.args, generics.args.len());
    if types.len() == 2 {
        Ok(ModelTypesModel { model: types[0], parent_model: types[1] })
    } else {
        Err(Error { kind: ErrorKind::GenericArgument, span: generics.span })
    }
}

/// The model types that a trait names: those of its list of generic
/// arguments; without a list, an error at the place of the trait.
pub open spec fn resolved(generics: Option<GenericArgsModel>, trait_span: Span) -> Result<
    ModelTypesModel,
    Error,
> {
    match generics {
        Some(list) => model_types_of(list),
        None => Err(Error { kind: ErrorKind::GenericArgument, span: trait_span }),
    }
}

impl ModelTypes {
    /// Takes the model and the parent model from the generic arguments.
    pub fn new(generics: &GenericArgs) -> (r: Result<ModelTypes, Error>)
        ensures
            types_result(r) == model_types_of(generics@),
    {
        let args = &generics.args;
        let mut found: usize = 0;
        let mut model: Option<String> = None;
        let mut parent_model: Option<String> = None;
        let mut i: usize = 0;
        while i < args.len()
            invariant
                i <= args.len(),
                found <= i,
                found == type_args(args_view(args@), i as nat).len(),
                found >= 1 ==> model is Some && model->0@ == type_args(args_view(args@), i as nat)[0],
                found >= 2 ==> parent_model is Some && parent_model->0@ == type_args(
                    args_view(args@),
                    i as nat,
                )[1],
            decreases args.len() - i,
        {
            let arg = &args[i];
            assert(args_view(args@)[i as int] == arg@);
            if arg.kind == ArgKind::Type {
                if found == 0 {
                    model = Some(arg.text.clone());
                } else if found == 1 {
                    parent_model = Some(arg.text.clone());
                }
                found = found + 1;
            }
            i = i + 1;
        }
        if found == 2 {
            match (model, parent_model) {
                (Some(model), Some(parent_model)) => Ok(ModelTypes { model, parent_model }),
                _ => Err(Error::new(ErrorKind::GenericArgument, generics.span)),
            }
        } else {
            Err(Error::new(ErrorKind::GenericArgument, generics.span))
        }
    }
}

/// Takes the model and the parent model from the generic arguments of the
/// trait, where it has any.
pub fn resolve_model_types(generics: &Option<GenericArgs>, trait_span: Span) -> (r: Result<
    ModelTypes,
    Error,
>)
    ensures
        types_result(r) == resolved(opt_args(*generics), trait_span),
{
    match generics {
        Some(list) => ModelTypes::new(list),
        None => Err(Error::new(ErrorKind::GenericArgument, trait_span)),
    }
}

/// A trait with fewer than two type arguments, or with none at all, names
/// no model types: the result is the error about the generic arguments.
pub proof fn lemma_too_few_type_arguments(generics: Option<GenericArgsModel>, trait_span: Span)
    requires
        generics matches Some(list) ==> type_args(list.args, list.args.len()).len() < 2,
    ensures
        resolved(generics, trait_span) matches Err(e) && e.kind == ErrorKind::GenericArgument,
{
}

} // verus!

//! Generic parameters, and the text of the type parameters among them.
use crate::fmt::cairo_write::{csv_text, texts, CairoWriteSlice};
use crate::sink::{
    lemma_emitted_nothing, lemma_first_write, lemma_step_render, rendered, string_limit, Sink,
    SinkFailure, StringSink,
};
use crate::text::utf8_len;
use vstd::prelude::*;

verus! {

/// A generic parameter. Types and paths are held as their source text.
pub enum GenericParam {
    Type(String),
    Const(ConstGenericParam),
    ImplNamed(ImplNamedGenericParam),
    ImplAnonymous(ImplAnonymousGenericParam),
    NegativeImpl(String),
}

/// A constant parameter: its name and its type.
pub struct ConstGenericParam {
    pub name: String,
    pub ty: String,
}

/// A named impl parameter.
pub struct ImplNamedGenericParam {
    pub name: String,
    pub trait_path: String,
    pub type_constrains: Option<Vec<AssociatedItemConstraint>>,
}

/// A constraint on an associated item: the item and what it must be.
pub struct AssociatedItemConstraint {
    pub item: String,
    pub value: String,
}

/// An anonymous impl parameter.
pub struct ImplAnonymousGenericParam {
    pub trait_path: String,
    pub type_constrains: Option<Vec<AssociatedItemConstraint>>,
}

/// The names of the type parameters among `params`, in order.
pub open spec fn type_names(params: Seq<GenericParam>) -> Seq<Seq<char>>
    decreases params.len(),
{
    if params.len() == 0 {
        Seq::empty()
    } else {
        let before = type_names(params.drop_last());
        match params.last() {
            GenericParam::Type(name) => before.push(name@),
            _ => before,
        }
    }
}

/// The type parameters between angle brackets, separated by a comma and a
/// space; nothing where there is no list of parameters.
pub open spec fn generic_types_text(params: Option<Vec<GenericParam>>) -> Seq<char> {
    match params {
        Some(list) => seq!['<'] + csv_text(type_names(list@)) + seq!['>'],
        None => Seq::empty(),
    }
}

/// The type parameters as they stand in a call: `::` and the angle brackets;
/// nothing where there is no list of parameters.
pub open spec fn generic_types_call_text(params: Option<Vec<GenericParam>>) -> Seq<char> {
    match params {
        Some(list) => seq![':', ':'] + generic_types_text(params),
        None => Seq::empty(),
    }
}

/// The text of each string slice.
pub open spec fn str_views(names: Seq<&str>) -> Seq<Seq<char>> {
    names.map_values(|s: &str| s@)
}

/// What has a list of generic parameters, or none.
pub trait GenericParamsTrait {
    /// The list of parameters, if there is one.
    spec fn params(&self) -> Option<Vec<GenericParam>>;

    /// The list of parameters, if there is one.
    fn generic_params(&self) -> (r: &Option<Vec<GenericParam>>)
        ensures
            *r == self.params(),
    ;

    /// The names of the type parameters, in order; `None` where there is no
    /// list of parameters.
    fn generic_types(&self) -> (r: Option<Vec<&str>>)
        ensures
            r is Some <==> self.params() is Some,
            r matches Some(names) ==> str_views(names@) == type_names(self.params().unwrap()@),
    {
        if let Some(params) = self.generic_params() {
            let mut names: Vec<&str> = Vec::new();
            let mut i: usize = 0;
            while i < params.len()
                invariant
                    i <= params.len(),
                    str_views(names@) == type_names(params@.take(i as int)),
                decreases params.len() - i,
            {
                proof {
                    assert(params@.take(i + 1).drop_last() =~= params@.take(i as int));
                }
                match &params[i] {
                    GenericParam::Type(name) => {
                        let ghost before = names@;
                        names.push(name.as_str());
                        proof {
                            assert(str_views(names@) =~= str_views(before).push(name@));
                        }
                    },
                    _ => {},
                }
                i += 1;
            }
            proof {
                assert(params@.take(i as int) =~= params@);
            }
            Some(names)
        } else {
            None
        }
    }

    /// The type parameters between angle brackets, in a new string.
    fn generic_types_string(&self) -> (s: String)
        requires
            utf8_len(generic_types_text(self.params())) <= string_limit(),
        ensures
            s@ == generic_types_text(self.params()),
    {
        let mut buf = StringSink::new();
        let _ = self.cwrite_generic_types(&mut buf);
        buf.into_string()
    }

    /// Writes the type parameters between angle brackets.
    fn cwrite_generic_types<W: Sink>(&self, buf: &mut W) -> (r: Result<(), SinkFailure>)
        ensures
            rendered(old(buf)@, final(buf)@, generic_types_text(self.params()), r),
    {
        if let Some(generics) = self.generic_types() {
            proof {
                assert(texts(generics@) =~= str_views(generics@));
            }
            generics.cwrite_csv_angled(buf)
        } else {
            proof {
                lemma_emitted_nothing(buf@);
            }
            Ok(())
        }
    }

    /// Writes the type parameters as they stand in a call.
    fn cwrite_generic_types_call<W: Sink>(&self, buf: &mut W) -> (r: Result<(), SinkFailure>)
        ensures
            rendered(old(buf)@, final(buf)@, generic_types_call_text(self.params()), r),
    {
        if let Some(generics) = self.generic_types() {
            let ghost angled = generic_types_text(self.params());
            proof {
                assert(texts(generics@) =~= str_views(generics@));
                reveal_strlit("::");
                assert("::"@ =~= seq![':', ':']);
                lemma_first_write(buf@, "::"@, "::"@ + angled);
            }
            buf.write_str("::")?;
            proof {
                lemma_step_render(old(buf)@, buf@, "::"@, angled, "::"@ + angled);
            }
            generics.cwrite_csv_angled(buf)
        } else {
            proof {
                lemma_emitted_nothing(buf@);
            }
            Ok(())
        }
    }
}

impl GenericParamsTrait for Option<Vec<GenericParam>> {
    open spec fn params(&self) -> Option<Vec<GenericParam>> {
        *self
    }

    fn generic_params(&self) -> (r: &Option<Vec<GenericParam>>) {
        self
    }
}

} // verus!

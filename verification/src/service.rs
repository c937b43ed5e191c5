//! The `BackgroundService` derive: the arguments it refuses, the shapes of
//! struct it accepts, and whether the constructor reads configuration.

use vstd::prelude::*;

use crate::attrs::{named, Attr};
use crate::field_resolver::FieldKind;
use crate::text::{chars_of, string_of};

verus! {

pub open spec fn removed_state_msg() -> Seq<char> {
    "`#[service(state = ...)]` was removed — background services are constructed from the bean graph by type; drop the attribute and make sure every #[inject] field type is provided/registered on the AppBuilder"@
}

pub open spec fn unknown_service_arg_msg() -> Seq<char> {
    "unknown attribute in #[service(...)]"@
}

/// The refusal of the `#[service(...)]` attributes: every argument is
/// refused, the removed `state` with a migration hint.
pub open spec fn service_attrs_fault<R>(attrs: Seq<Attr<R>>) -> Option<Seq<char>>
    decreases attrs.len(),
{
    if attrs.len() == 0 {
        None
    } else {
        match service_attrs_fault(attrs.drop_last()) {
            Some(e) => Some(e),
            None => {
                let a = attrs.last();
                if named(a, "service"@) {
                    match a.meta {
                        Err(e) => Some(e@),
                        Ok(ms) => if ms@.len() == 0 {
                            None
                        } else if ms@[0].key@ == "state"@ {
                            Some(removed_state_msg())
                        } else {
                            Some(unknown_service_arg_msg())
                        },
                    }
                } else {
                    None
                }
            },
        }
    }
}

proof fn lemma_service_stop<R>(attrs: Seq<Attr<R>>, i: int)
    requires
        0 <= i < attrs.len(),
        service_attrs_fault(attrs.take(i + 1)) is Some,
    ensures
        service_attrs_fault(attrs) == service_attrs_fault(attrs.take(i + 1)),
    decreases attrs.len() - i,
{
    if i + 1 == attrs.len() {
        assert(attrs.take(i + 1) =~= attrs);
    } else {
        assert(attrs.drop_last().take(i + 1) =~= attrs.take(i + 1));
        lemma_service_stop(attrs.drop_last(), i);
    }
}

/// Check the type's `#[service(...)]` attributes.
pub fn check_service_attrs<R>(attrs: &Vec<Attr<R>>) -> (r: Result<(), String>)
    ensures
        match r {
            Ok(()) => service_attrs_fault(attrs@) is None,
            Err(e) => service_attrs_fault(attrs@) == Some(e@),
        },
{
    proof {
        reveal_strlit("service");
        reveal_strlit("state");
        reveal_strlit(
            "`#[service(state = ...)]` was removed — background services are constructed from the bean graph by type; drop the attribute and make sure every #[inject] field type is provided/registered on the AppBuilder",
        );
        reveal_strlit("unknown attribute in #[service(...)]");
    }
    let mut i: usize = 0;
    while i < attrs.len()
        invariant
            0 <= i <= attrs@.len(),
            service_attrs_fault(attrs@.take(i as int)) is None,
        decreases attrs@.len() - i,
    {
        assert(attrs@.take(i + 1).drop_last() =~= attrs@.take(i as int));
        assert(attrs@.take(i + 1).last() == attrs@[i as int]);
        let a = &attrs[i];
        if crate::attrs::is_named(a, "service") {
            let bad: Option<String> = match &a.meta {
                Err(e) => Some(e.clone()),
                Ok(ms) => {
                    if ms.len() == 0 {
                        None
                    } else if crate::text::str_is(ms[0].key.as_str(), "state") {
                        Some(
                            string_of(
                                &chars_of(
                                    "`#[service(state = ...)]` was removed — background services are constructed from the bean graph by type; drop the attribute and make sure every #[inject] field type is provided/registered on the AppBuilder",
                                ),
                            ),
                        )
                    } else {
                        Some(string_of(&chars_of("unknown attribute in #[service(...)]")))
                    }
                },
            };
            match bad {
                Some(e) => {
                    proof {
                        lemma_service_stop(attrs@, i as int);
                    }
                    return Err(e);
                },
                None => {},
            }
        }
        i = i + 1;
    }
    assert(attrs@.take(attrs@.len() as int) =~= attrs@);
    Ok(())
}

/// The shape of the deriving type.
#[derive(Clone, Copy, PartialEq, Eq, Structural, Debug)]
pub enum ServiceShape {
    NamedStruct,
    UnitStruct,
    TupleStruct,
    NotStruct,
}

/// How the service is built.
#[derive(Clone, Copy, PartialEq, Eq, Structural, Debug)]
pub enum ServiceBuild {
    /// From its classified fields.
    Fields,
    /// The unit value itself.
    Unit,
}

pub open spec fn shape_outcome(s: ServiceShape) -> Result<ServiceBuild, Seq<char>> {
    match s {
        ServiceShape::NamedStruct => Ok(ServiceBuild::Fields),
        ServiceShape::UnitStruct => Ok(ServiceBuild::Unit),
        ServiceShape::TupleStruct => Err(
            "#[derive(BackgroundService)] requires named fields or a unit struct"@,
        ),
        ServiceShape::NotStruct => Err("#[derive(BackgroundService)] only works on structs"@),
    }
}

/// Named structs are built from their fields, unit structs as themselves;
/// other shapes are refused.
pub fn service_build(shape: ServiceShape) -> (r: Result<ServiceBuild, String>)
    ensures
        match r {
            Ok(b) => shape_outcome(shape) == Ok::<ServiceBuild, Seq<char>>(b),
            Err(e) => shape_outcome(shape) == Err::<ServiceBuild, Seq<char>>(e@),
        },
{
    proof {
        reveal_strlit("#[derive(BackgroundService)] requires named fields or a unit struct");
        reveal_strlit("#[derive(BackgroundService)] only works on structs");
    }
    match shape {
        ServiceShape::NamedStruct => Ok(ServiceBuild::Fields),
        ServiceShape::UnitStruct => Ok(ServiceBuild::Unit),
        ServiceShape::TupleStruct => Err(
            string_of(&chars_of("#[derive(BackgroundService)] requires named fields or a unit struct")),
        ),
        ServiceShape::NotStruct => Err(
            string_of(&chars_of("#[derive(BackgroundService)] only works on structs")),
        ),
    }
}

/// Whether the constructor reads the configuration: some field is a config
/// value or a config section.
pub fn reads_config(kinds: &Vec<FieldKind>) -> (r: bool)
    ensures
        r == exists|i: int|
            0 <= i < kinds@.len() && (#[trigger] kinds@[i] is Config || kinds@[i] is ConfigSection),
{
    let mut i: usize = 0;
    while i < kinds.len()
        invariant
            0 <= i <= kinds@.len(),
            forall|k: int| 0 <= k < i ==> !(#[trigger] kinds@[k] is Config || kinds@[k] is ConfigSection),
        decreases kinds@.len() - i,
    {
        match &kinds[i] {
            FieldKind::Config { .. } | FieldKind::ConfigSection { .. } => {
                return true;
            },
            _ => {},
        }
        i = i + 1;
    }
    false
}

} // verus!

//! Classification of the fields of beans, decorator beans and background
//! services by the annotation that says where their value comes from.

use vstd::prelude::*;

use crate::attrs::{any_named, has_named, Attr};
use crate::text::{push_str, string_of};

verus! {

/// Where the constructor of a derived type takes a field's value from.
pub enum FieldKind {
    /// `#[inject]`: cloned from the application state.
    Inject,
    /// `#[inject(name = "...")]`: the named bean.
    InjectNamed { name: String },
    /// `#[config("key")]`: a configuration value.
    Config { key: String, env_hint: String, ty_name: String },
    /// `#[config_section(prefix = "...")]`: a typed configuration section.
    ConfigSection { prefix: String },
    /// `#[default]`: `Default::default()`.
    Default,
}

/// What a derive accepts, and how it names itself in messages.
pub struct ClassifyOpts {
    pub allow_named_inject: bool,
    pub allow_default: bool,
    pub context_label: &'static str,
}

/// One field to classify: its attributes and what reading each of the
/// annotations that carry data gives. A reading is consulted only where the
/// field's annotation calls for it.
pub struct FieldInput<R, E> {
    pub attrs: Vec<Attr<R>>,
    /// The bean name of `#[inject(name = "...")]`, `None` for a bare `#[inject]`.
    pub inject_name: Result<Option<String>, E>,
    /// The prefix of the first `#[config_section(...)]`.
    pub section_prefix: Result<String, E>,
    /// Key, environment-variable hint and type name of the first `#[config(...)]`.
    pub config: Result<(String, String, String), E>,
}

/// Why classification stopped.
pub enum ClassifyError<E> {
    /// Reading an annotation failed.
    Read(E),
    /// The field at this position carries none of the accepted annotations.
    Unannotated { field: usize, message: String },
}

/// The kind of one field, or why it has none (`i` is its position).
pub open spec fn kind_of<R, E>(f: FieldInput<R, E>, i: int, opts: ClassifyOpts) -> Result<
    FieldKind,
    ClassifyError<E>,
> {
    if has_named(f.attrs@, "inject"@) {
        if opts.allow_named_inject {
            match f.inject_name {
                Ok(Some(name)) => Ok(FieldKind::InjectNamed { name }),
                Ok(None) => Ok(FieldKind::Inject),
                Err(e) => Err(ClassifyError::Read(e)),
            }
        } else {
            Ok(FieldKind::Inject)
        }
    } else if has_named(f.attrs@, "config_section"@) {
        match f.section_prefix {
            Ok(prefix) => Ok(FieldKind::ConfigSection { prefix }),
            Err(e) => Err(ClassifyError::Read(e)),
        }
    } else if has_named(f.attrs@, "config"@) {
        match f.config {
            Ok((key, env_hint, ty_name)) => Ok(FieldKind::Config { key, env_hint, ty_name }),
            Err(e) => Err(ClassifyError::Read(e)),
        }
    } else if has_named(f.attrs@, "default"@) && opts.allow_default {
        Ok(FieldKind::Default)
    } else {
        Err(ClassifyError::Unannotated { field: i as usize, message: arbitrary() })
    }
}

/// One line of the annotation list.
pub open spec fn hint_line(h: Seq<char>) -> Seq<char> {
    "\n  "@ + h
}

/// The annotations a derive accepts, one per line.
pub open spec fn annotation_hints(opts: ClassifyOpts) -> Seq<char> {
    hint_line("#[inject]                           — clone from app state"@) + (if opts.allow_named_inject {
        hint_line("#[inject(name = \"...\")]             — named injection via newtype"@)
    } else {
        Seq::empty()
    }) + hint_line("#[config(\"app.key\")]                — resolve from R2eConfig"@) + hint_line(
        "#[config_section(prefix = \"app\")]   — resolve a typed config section"@,
    ) + (if opts.allow_default {
        hint_line("#[default]                          — use `Default::default()`"@)
    } else {
        Seq::empty()
    })
}

/// The refusal of a field without an accepted annotation.
pub open spec fn unannotated_msg(opts: ClassifyOpts) -> Seq<char> {
    opts.context_label@ + " field must be annotated with one of:\n"@ + annotation_hints(opts)
}

/// The list of annotations a derive accepts, as its refusal shows them.
pub fn unannotated_message(opts: &ClassifyOpts) -> (r: String)
    ensures
        r@ == unannotated_msg(*opts),
{
    let mut m: Vec<char> = Vec::new();
    push_str(&mut m, opts.context_label);
    push_str(&mut m, " field must be annotated with one of:\n");
    push_str(&mut m, "\n  #[inject]                           — clone from app state");
    if opts.allow_named_inject {
        push_str(&mut m, "\n  #[inject(name = \"...\")]             — named injection via newtype");
    }
    push_str(&mut m, "\n  #[config(\"app.key\")]                — resolve from R2eConfig");
    push_str(&mut m, "\n  #[config_section(prefix = \"app\")]   — resolve a typed config section");
    if opts.allow_default {
        push_str(&mut m, "\n  #[default]                          — use `Default::default()`");
    }
    proof {
        reveal_strlit("\n  #[inject]                           — clone from app state");
        reveal_strlit("\n  #[inject(name = \"...\")]             — named injection via newtype");
        reveal_strlit("\n  #[config(\"app.key\")]                — resolve from R2eConfig");
        reveal_strlit("\n  #[config_section(prefix = \"app\")]   — resolve a typed config section");
        reveal_strlit("\n  #[default]                          — use `Default::default()`");
        reveal_strlit("#[inject]                           — clone from app state");
        reveal_strlit("#[inject(name = \"...\")]             — named injection via newtype");
        reveal_strlit("#[config(\"app.key\")]                — resolve from R2eConfig");
        reveal_strlit("#[config_section(prefix = \"app\")]   — resolve a typed config section");
        reveal_strlit("#[default]                          — use `Default::default()`");
        reveal_strlit("\n  ");
        assert(m@ =~= unannotated_msg(*opts));
    }
    string_of(&m)
}

/// The position of the first field that cannot be classified, from `i` on.
pub open spec fn first_failure<R, E>(fields: Seq<FieldInput<R, E>>, opts: ClassifyOpts, i: int) -> Option<
    int,
>
    decreases fields.len() - i,
{
    if i < 0 || i >= fields.len() {
        None
    } else if kind_of(fields[i], i, opts) is Err {
        Some(i)
    } else {
        first_failure(fields, opts, i + 1)
    }
}

/// `err` is the error that `k` stands for, with the refusal's full message.
pub open spec fn reports<E>(k: Result<FieldKind, ClassifyError<E>>, err: ClassifyError<E>, opts: ClassifyOpts) -> bool {
    match k {
        Err(ClassifyError::Read(a)) => err == ClassifyError::<E>::Read(a),
        Err(ClassifyError::Unannotated { field, .. }) => match err {
            ClassifyError::Unannotated { field: f, message } => f == field && message@ == unannotated_msg(opts),
            _ => false,
        },
        Ok(_) => false,
    }
}

/// Classify every field, in order. The first field whose annotation cannot
/// be read, or that has no accepted annotation, stops the classification.
pub fn classify_fields<R, E>(fields: Vec<FieldInput<R, E>>, opts: &ClassifyOpts) -> (r: Result<
    Vec<FieldKind>,
    ClassifyError<E>,
>)
    ensures
        match r {
            Ok(kinds) => first_failure(fields@, *opts, 0) is None && kinds@.len() == fields@.len()
                && forall|i: int|
                0 <= i < fields@.len() ==> kind_of(fields@[i], i, *opts) == Ok::<
                    FieldKind,
                    ClassifyError<E>,
                >(#[trigger] kinds@[i]),
            Err(err) => first_failure(fields@, *opts, 0) matches Some(i) && reports(
                kind_of(fields@[i], i, *opts),
                err,
                *opts,
            ),
        },
{
    let ghost orig = fields@;
    let n = fields.len();
    let mut rest = fields;
    let mut out: Vec<FieldKind> = Vec::new();
    let mut i: usize = 0;
    while rest.len() > 0
        invariant
            orig == fields@,
            n == orig.len(),
            i + rest@.len() == orig.len(),
            first_failure(orig, *opts, 0) == first_failure(orig, *opts, i as int),
            rest@ == orig.skip(i as int),
            out@.len() == i,
            forall|k: int| 0 <= k < i ==> kind_of(orig[k], k, *opts) == Ok::<
                FieldKind,
                ClassifyError<E>,
            >(#[trigger] out@[k]),
        decreases rest@.len(),
    {
        assert(rest@[0] == orig[i as int]);
        let f = rest.remove(0);
        assert(rest@ =~= orig.skip(i + 1));
        let ghost fk = kind_of(f, i as int, *opts);
        let FieldInput { attrs, inject_name, section_prefix, config } = f;
        let kind = if any_named(&attrs, "inject") {
            if opts.allow_named_inject {
                match inject_name {
                    Ok(Some(name)) => FieldKind::InjectNamed { name },
                    Ok(None) => FieldKind::Inject,
                    Err(e) => {
                        assert(fk == Err::<FieldKind, ClassifyError<E>>(ClassifyError::Read(e)));
                        return Err(ClassifyError::Read(e));
                    },
                }
            } else {
                FieldKind::Inject
            }
        } else if any_named(&attrs, "config_section") {
            match section_prefix {
                Ok(prefix) => FieldKind::ConfigSection { prefix },
                Err(e) => {
                    assert(fk == Err::<FieldKind, ClassifyError<E>>(ClassifyError::Read(e)));
                    return Err(ClassifyError::Read(e));
                },
            }
        } else if any_named(&attrs, "config") {
            match config {
                Ok((key, env_hint, ty_name)) => FieldKind::Config { key, env_hint, ty_name },
                Err(e) => {
                    assert(fk == Err::<FieldKind, ClassifyError<E>>(ClassifyError::Read(e)));
                    return Err(ClassifyError::Read(e));
                },
            }
        } else if any_named(&attrs, "default") && opts.allow_default {
            FieldKind::Default
        } else {
            let message = unannotated_message(opts);
            return Err(ClassifyError::Unannotated { field: i, message });
        };
        assert(fk == Ok::<FieldKind, ClassifyError<E>>(kind));
        assert(first_failure(orig, *opts, i as int) == first_failure(orig, *opts, i + 1));
        out.push(kind);
        i = i + 1;
    }
    Ok(out)
}

} // verus!

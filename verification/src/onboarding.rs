//! How a user is asked for the environment of a capsule.

use vstd::prelude::*;
use vstd::string::*;

use crate::host_state::text_of;
use crate::manifest::EnvDef;
use crate::text::{eq_ignore_case, same_ignoring_case, texts};

verus! {

/// What kind of value is asked for.
#[derive(Debug, Clone, PartialEq, Eq)]
pub enum OnboardingFieldType {
    Text,
    Secret,
    /// One of several values.
    Enum(Vec<String>),
    Array,
}

/// A value that is asked for.
#[derive(Debug)]
pub struct OnboardingField {
    pub key: String,
    pub prompt: String,
    pub description: Option<String>,
    pub field_type: OnboardingFieldType,
    pub default: Option<String>,
    pub placeholder: Option<String>,
}

/// Whether a field has the type of a definition: a secret and an array are
/// what they are declared to be; else several values are a choice, and fewer
/// are plain text.
pub open spec fn has_type_of(t: OnboardingFieldType, def: EnvDef) -> bool {
    if eq_ignore_case(def.env_type@, "secret"@) {
        t is Secret
    } else if eq_ignore_case(def.env_type@, "array"@) {
        t is Array
    } else if def.enum_values@.len() > 1 {
        t matches OnboardingFieldType::Enum(values) && texts(values@) == texts(def.enum_values@)
    } else {
        t is Text
    }
}

/// The value that is offered: the declared default, or the only value of a
/// text field that has just one.
pub open spec fn offered_default(def: EnvDef) -> Option<Seq<char>> {
    if def.default is Some {
        Some(def.default->0@)
    } else if def.enum_values@.len() == 1 && !eq_ignore_case(def.env_type@, "secret"@)
        && !eq_ignore_case(def.env_type@, "array"@) {
        Some(def.enum_values@[0]@)
    } else {
        None
    }
}

fn copy_text(s: &Option<String>) -> (r: Option<String>)
    ensures
        r == *s,
{
    match s {
        Some(x) => Some(x.clone()),
        None => None,
    }
}

/// The field that asks for an environment value.
pub fn build_onboarding_field(key: &str, def: &EnvDef) -> (r: OnboardingField)
    ensures
        r.key@ == key@,
        r.prompt@ == match def.request {
            Some(request) => request@,
            None => "Please enter value for "@ + key@,
        },
        r.description == def.description,
        r.placeholder == def.placeholder,
        has_type_of(r.field_type, *def),
        text_of(r.default) == offered_default(*def),
{
    let prompt = match &def.request {
        Some(request) => request.clone(),
        None => {
            let mut prompt = "Please enter value for ".to_owned();
            prompt.append(key);
            prompt
        },
    };
    let secret = same_ignoring_case(def.env_type.as_str(), "secret");
    let array = same_ignoring_case(def.env_type.as_str(), "array");
    let field_type = if secret {
        OnboardingFieldType::Secret
    } else if array {
        OnboardingFieldType::Array
    } else if def.enum_values.len() > 1 {
        let mut values: Vec<String> = Vec::new();
        for i in 0..def.enum_values.len()
            invariant
                values@ == def.enum_values@.take(i as int),
        {
            let value = def.enum_values[i].clone();
            values.push(value);
            assert(def.enum_values@.take(i + 1) =~= def.enum_values@.take(i as int).push(value));
        }
        assert(def.enum_values@.take(def.enum_values@.len() as int) =~= def.enum_values@);
        OnboardingFieldType::Enum(values)
    } else {
        OnboardingFieldType::Text
    };
    let default: Option<String> = match &def.default {
        Some(value) => Some(value.clone()),
        None => if def.enum_values.len() == 1 && !secret && !array {
            Some(def.enum_values[0].clone())
        } else {
            None
        },
    };
    OnboardingField {
        key: key.to_owned(),
        prompt,
        description: copy_text(&def.description),
        field_type,
        default,
        placeholder: copy_text(&def.placeholder),
    }
}

/// A value is asked for as what it is declared to be: a secret as a secret and
/// an array as an array, in any letter case; of several values one is chosen
/// from all of them, and anything else is plain text.
pub proof fn fields_are_what_they_are_declared(t: OnboardingFieldType, def: EnvDef)
    requires
        has_type_of(t, def),
    ensures
        t is Secret <==> eq_ignore_case(def.env_type@, "secret"@),
        t is Array <==> eq_ignore_case(def.env_type@, "array"@),
        t is Enum <==> def.enum_values@.len() >= 2 && !eq_ignore_case(def.env_type@, "secret"@)
            && !eq_ignore_case(def.env_type@, "array"@),
        t is Text <==> def.enum_values@.len() < 2 && !eq_ignore_case(def.env_type@, "secret"@)
            && !eq_ignore_case(def.env_type@, "array"@),
        t matches OnboardingFieldType::Enum(values) ==> texts(values@) == texts(def.enum_values@),
{
    reveal_strlit("secret");
    reveal_strlit("array");
    crate::text::only_letter_case_is_ignored(def.env_type@, "secret"@);
    crate::text::only_letter_case_is_ignored(def.env_type@, "array"@);
    assert("secret"@.len() == 6 && "array"@.len() == 5);
}

/// A declared default is always offered; without one, only the single value of a
/// text field is.
pub proof fn defaults_are_offered(def: EnvDef)
    ensures
        def.default matches Some(value) ==> offered_default(def) == Some(value@),
        def.default is None && def.enum_values@.len() != 1 ==> offered_default(def) is None,
        def.default is None && (eq_ignore_case(def.env_type@, "secret"@) || eq_ignore_case(
            def.env_type@,
            "array"@,
        )) ==> offered_default(def) is None,
        def.default is None && def.enum_values@.len() == 1 && !eq_ignore_case(
            def.env_type@,
            "secret"@,
        ) && !eq_ignore_case(def.env_type@, "array"@) ==> offered_default(def) == Some(
            def.enum_values@[0]@,
        ),
{
}

}

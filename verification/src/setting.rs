//! Which setting an object of the JSON form is refused for.
//!
//! The reader of mods says that it refuses an object, not why. The reason is
//! found by asking it again: about the acronym alone, and about the acronym
//! with each setting alone.

use vstd::prelude::*;
use vstd::string::StringExecFns;
use crate::json::{
    deserialize_mod,
    json_object_fields,
    json_string,
    json_string_text,
    object_fields,
    parsed_mod,
};
use crate::mode::GameMode;
use crate::rosu::{is_unknown_mod, mod_acronym};

verus! {

/// The value of the first field of that name.
pub open spec fn field_value(fields: Seq<(Seq<char>, Seq<char>)>, name: Seq<char>) -> Option<
    Seq<char>,
>
    decreases fields.len(),
{
    if fields.len() == 0 {
        None
    } else if fields[0].0 == name {
        Some(fields[0].1)
    } else {
        field_value(fields.drop_first(), name)
    }
}

/// The value of the first field of that name, if there is one.
pub fn find_field(fields: &Vec<(String, String)>, name: &str) -> (r: Option<String>)
    ensures
        match r {
            Some(value) => field_value(fields.deep_view(), name@) == Some(value@),
            None => field_value(fields.deep_view(), name@) is None,
        },
{
    let wanted = name.to_owned();
    let ghost all = fields.deep_view();
    let mut i: usize = 0;
    assert(all.skip(0) =~= all);
    while i < fields.len()
        invariant
            i <= fields.len(),
            all == fields.deep_view(),
            wanted@ == name@,
            field_value(all, name@) == field_value(all.skip(i as int), name@),
        decreases fields.len() - i,
    {
        let ghost rest = all.skip(i as int);
        assert(rest[0] == all[i as int]);
        assert(all[i as int].0 == fields[i as int].0@);
        assert(all[i as int].1 == fields[i as int].1@);
        assert(rest.drop_first() =~= all.skip(i + 1));
        if fields[i].0 == wanted {
            return Some(fields[i].1.clone());
        }
        i += 1;
    }
    None
}

/// A mod of that acronym without settings, as JSON. `acronym` is JSON itself.
pub open spec fn bare_probe(acronym: Seq<char>) -> Seq<char> {
    "{\"acronym\":"@ + acronym + "}"@
}

/// A mod of that acronym with one setting, as JSON. `acronym` and `value` are
/// JSON themselves; the setting's name is plain text.
pub open spec fn setting_probe(acronym: Seq<char>, name: Seq<char>, value: Seq<char>) -> Seq<char> {
    "{\"acronym\":"@ + acronym + ",\"settings\":{"@ + json_string_text(name) + ":"@ + value
        + "}}"@
}

/// The name of the first setting that the mod of that acronym refuses when
/// it is the only setting.
pub open spec fn first_refused(
    acronym: Seq<char>,
    settings: Seq<(Seq<char>, Seq<char>)>,
    mode: u8,
) -> Option<Seq<char>>
    decreases settings.len(),
{
    if settings.len() == 0 {
        None
    } else if parsed_mod(setting_probe(acronym, settings[0].0, settings[0].1), mode) is Err {
        Some(settings[0].0)
    } else {
        first_refused(acronym, settings.drop_first(), mode)
    }
}

/// The setting that an object is refused for, with the acronym of its mod:
/// the object has an acronym that makes a known mod when it stands alone,
/// and settings, one of which the mod refuses. `None` where the object is
/// refused for another reason.
pub open spec fn refused_setting(element: Seq<char>, mode: u8) -> Option<(Seq<char>, Seq<char>)> {
    match json_object_fields(element) {
        Some(fields) => match (field_value(fields, "acronym"@), field_value(fields, "settings"@)) {
            (Some(acronym), Some(inner)) => match (
                parsed_mod(bare_probe(acronym), mode),
                json_object_fields(inner),
            ) {
                (Ok(bare), Some(settings)) => match first_refused(acronym, settings, mode) {
                    Some(setting) => if bare.known {
                        Some((bare.acronym, setting))
                    } else {
                        None
                    },
                    None => None,
                },
                _ => None,
            },
            _ => None,
        },
        None => None,
    }
}

/// Looks for the setting that an object is refused for.
pub fn find_refused_setting(element: &str, mode: GameMode) -> (r: Option<(String, String)>)
    ensures
        r.deep_view() == refused_setting(element@, mode.spec_index()),
{
    let fields = match object_fields(element) {
        Some(fields) => fields,
        None => { return None; },
    };
    let acronym = match find_field(&fields, "acronym") {
        Some(acronym) => acronym,
        None => { return None; },
    };
    let inner = match find_field(&fields, "settings") {
        Some(inner) => inner,
        None => { return None; },
    };
    let bare = "{\"acronym\":".to_owned().concat(acronym.as_str()).concat("}");
    let named = match deserialize_mod(bare.as_str(), mode.index()) {
        Ok(gamemod) => {
            if is_unknown_mod(&gamemod) {
                return None;
            }
            mod_acronym(&gamemod)
        },
        Err(_) => { return None; },
    };
    let settings = match object_fields(inner.as_str()) {
        Some(settings) => settings,
        None => { return None; },
    };
    let ghost all = settings.deep_view();
    let mut i: usize = 0;
    assert(all.skip(0) =~= all);
    assert(refused_setting(element@, mode.spec_index()) == match first_refused(
        acronym@,
        all,
        mode.spec_index(),
    ) {
        Some(setting) => Some((named@, setting)),
        None => None,
    });
    while i < settings.len()
        invariant
            i <= settings.len(),
            all == settings.deep_view(),
            refused_setting(element@, mode.spec_index()) == match first_refused(
                acronym@,
                all,
                mode.spec_index(),
            ) {
                Some(setting) => Some((named@, setting)),
                None => None,
            },
            first_refused(acronym@, all, mode.spec_index()) == first_refused(
                acronym@,
                all.skip(i as int),
                mode.spec_index(),
            ),
        decreases settings.len() - i,
    {
        let ghost rest = all.skip(i as int);
        assert(rest[0] == all[i as int]);
        assert(all[i as int].0 == settings[i as int].0@);
        assert(all[i as int].1 == settings[i as int].1@);
        assert(rest.drop_first() =~= all.skip(i + 1));
        let probe = "{\"acronym\":".to_owned().concat(acronym.as_str()).concat(
            ",\"settings\":{",
        ).concat(json_string(settings[i].0.as_str()).as_str()).concat(":").concat(
            settings[i].1.as_str(),
        ).concat("}}");
        if deserialize_mod(probe.as_str(), mode.index()).is_err() {
            return Some((named, settings[i].0.clone()));
        }
        i += 1;
    }
    None
}

} // verus!

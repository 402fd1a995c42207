use vstd::prelude::*;
use vstd::string::StringExecFns;
use include_dir::{Dir, File};
use crate::error::ThemeError;
use crate::palette::{Theme, SLOT_COUNT};

verus! {

#[verifier::external_type_specification]
#[verifier::external_body]
pub struct ExDir<'a>(include_dir::Dir<'a>);

#[verifier::external_type_specification]
#[verifier::external_body]
pub struct ExFile<'a>(include_dir::File<'a>);

/// Whether an embedded directory holds a file at `path`, as
/// `include_dir::Dir::get_file` finds it.
pub uninterp spec fn dir_has_file(d: Dir<'static>, path: Seq<char>) -> bool;

/// Relies on `include_dir::Dir::get_file`: the embedded file at `path`, if
/// the directory holds one.
#[verifier::external_body]
fn get_file(d: &Dir<'static>, path: &str) -> (r: Option<&'static File<'static>>)
    ensures
        r is Some <==> dir_has_file(*d, path@),
{
    d.get_file(path)
}

/// What the bundled preset of a name gave.
pub enum PresetFile {
    /// No preset has that name.
    Absent,
    /// The preset's document is not a valid theme.
    Malformed,
    /// The preset's parsed document.
    Parsed(Theme),
}

/// What reading `<name>.yaml` from the user's theme directory gave.
pub enum ThemeFile {
    /// No such file, or no theme directory.
    Missing,
    /// The file exists but could not be read.
    Unreadable,
    /// The file is not a valid theme document.
    Malformed,
    /// The file's parsed document.
    Parsed(Theme),
}

/// The file that holds theme `name`, in either source.
pub open spec fn theme_file_of(name: Seq<char>) -> Seq<char> {
    name + ".yaml"@
}

/// What loading a theme gives: the preset of that name if there is one,
/// whatever the user's directory holds; otherwise the user's file.
pub open spec fn theme_lookup(preset: PresetFile, custom: ThemeFile) -> Result<Theme, ThemeError> {
    match preset {
        PresetFile::Parsed(t) => Ok(t),
        PresetFile::Malformed => Err(ThemeError::Parse),
        PresetFile::Absent => match custom {
            ThemeFile::Missing => Err(ThemeError::NotFound),
            ThemeFile::Unreadable => Err(ThemeError::Io),
            ThemeFile::Malformed => Err(ThemeError::Parse),
            ThemeFile::Parsed(t) => Ok(t),
        },
    }
}

/// The name of the file that holds theme `name`: `<name>.yaml`.
pub fn theme_file_name(name: &str) -> (r: String)
    ensures
        r@ == theme_file_of(name@),
{
    name.to_string().concat(".yaml")
}

/// The bundled preset file of theme `name`, `<name>.yaml`, if there is one.
pub fn preset_file(presets: &Dir<'static>, name: &str) -> (r: Option<&'static File<'static>>)
    ensures
        r is Some <==> dir_has_file(*presets, theme_file_of(name@)),
{
    let file = theme_file_name(name);
    get_file(presets, file.as_str())
}

/// Loads a theme. Presets come first: when a bundled preset has the name its
/// document is the result and `custom` is not looked at; otherwise `custom`
/// is what reading `<name>.yaml` from the user's theme directory gave.
pub fn load_theme(preset: PresetFile, custom: ThemeFile) -> (r: Result<Theme, ThemeError>)
    ensures
        r == theme_lookup(preset, custom),
{
    match preset {
        PresetFile::Parsed(t) => Ok(t),
        PresetFile::Malformed => Err(ThemeError::Parse),
        PresetFile::Absent => match custom {
            ThemeFile::Missing => Err(ThemeError::NotFound),
            ThemeFile::Unreadable => Err(ThemeError::Io),
            ThemeFile::Malformed => Err(ThemeError::Parse),
            ThemeFile::Parsed(t) => Ok(t),
        },
    }
}

/// Presets come first: when a preset has the name, loading gives the same
/// result whatever the user's directory holds, and when that preset's
/// document is valid the result is its sixteen-slot palette.
pub proof fn lemma_preset_first(preset: PresetFile, a: ThemeFile, b: ThemeFile)
    requires
        !(preset is Absent),
    ensures
        theme_lookup(preset, a) == theme_lookup(preset, b),
        preset matches PresetFile::Parsed(t) ==> (theme_lookup(preset, a) == Ok::<Theme, ThemeError>(t)
            && t.palette@.len() == SLOT_COUNT),
{
}

/// A name that neither source holds is not found.
pub proof fn lemma_unknown_not_found()
    ensures
        theme_lookup(PresetFile::Absent, ThemeFile::Missing) == Err::<Theme, ThemeError>(ThemeError::NotFound),
{
}

} // verus!

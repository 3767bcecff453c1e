use vstd::prelude::*;

use crate::language::builtins::{builtin_library, hyprland_library, mpris_library};
use crate::language::environment::{rt_push_env, rt_variables, Environment, Runtime, SRuntime, SharedEnvironment};
use crate::language::interpreter::{Host, EVALUATION_FUEL};
use crate::language::library::Library;
use crate::language::semantics::{block_rel, library_env, next_env, step2};
use crate::language::statement::{statement_result_view, SStatementError};
use crate::language::value::SValue;
use crate::parsing::{program_of, scan_and_parse, SScanAndParserError, ScanAndParserError};

verus! {

#[derive(Debug)]
pub enum LibraryLoadError {
    /// The library was not found.
    NotFound,
    /// The library file could not be parsed.
    ParsingFailed(ScanAndParserError),
}

pub enum SLibraryLoadError {
    NotFound,
    ParsingFailed(SScanAndParserError),
}

pub open spec fn library_load_error_view(e: LibraryLoadError) -> SLibraryLoadError {
    match e {
        LibraryLoadError::NotFound => SLibraryLoadError::NotFound,
        LibraryLoadError::ParsingFailed(x) => SLibraryLoadError::ParsingFailed(x@),
    }
}

/// The library that comes with the interpreter under `name`: `mpris` or `hyprland`.
pub fn builtin_library_named(name: &String) -> (r: Option<Library>)
    ensures
        match builtin_library(name@) {
            Some(entries) => r matches Some(lib) && lib@ == entries,
            None => r is None,
        },
{
    if *name == String::from_str("mpris") {
        Some(Library::from_entries(mpris_library()))
    } else if *name == String::from_str("hyprland") {
        Some(Library::from_entries(hyprland_library()))
    } else {
        None
    }
}

pub open spec fn library_result_view(r: Result<Library, LibraryLoadError>) -> Result<Seq<(Seq<char>, SValue)>, SLibraryLoadError> {
    match r {
        Ok(lib) => Ok(lib@),
        Err(e) => Err(library_load_error_view(e)),
    }
}

/// What loading a library from the text of its file comes to, in runtime `s`: text that
/// does not parse is refused; otherwise it runs in a new environment of its own, enclosed
/// by none, and the library is that environment's variables, however the run ended.
pub open spec fn library_text_rel(
    src: Seq<char>,
    s: SRuntime,
    t: SRuntime,
    r: Result<Seq<(Seq<char>, SValue)>, SLibraryLoadError>,
) -> bool {
    match program_of(src) {
        Err(e) => t == s && r == Err::<Seq<(Seq<char>, SValue)>, SLibraryLoadError>(SLibraryLoadError::ParsingFailed(e)),
        Ok(stmts) => exists|s2: SRuntime, x: Result<SValue, SStatementError>|
            #[trigger] step2(s2, x) && block_rel(
                EVALUATION_FUEL as int,
                stmts,
                next_env(s),
                rt_push_env(s, library_env()),
                s2,
                x,
            ) && t == s2 && r == Ok::<Seq<(Seq<char>, SValue)>, SLibraryLoadError>(rt_variables(s2, next_env(s))),
    }
}

/// The text a library is read from: that of `./name.kool` where it could be read, else that
/// of the file in the user's library directory.
pub open spec fn library_text(local: Option<String>, user: Option<String>) -> Option<String> {
    match local {
        Some(t) => Some(t),
        None => user,
    }
}

/// Loads the library `name`. A library that comes with the interpreter is found first;
/// else the text of `./name.kool` is loaded, else that of `name.kool` in the user's library
/// directory (`local` and `user`: the texts of those files where they could be read). None
/// of these is the error `NotFound`; text that does not parse is `ParsingFailed`.
pub fn load_library<H: Host>(
    name: &String,
    local: Option<String>,
    user: Option<String>,
    runtime: &mut Runtime,
    host: &mut H,
) -> (r: Result<Library, LibraryLoadError>)
    ensures
        match builtin_library(name@) {
            Some(entries) => final(runtime)@ == old(runtime)@ && (r matches Ok(lib) && lib@ == entries),
            None => match library_text(local, user) {
                None => final(runtime)@ == old(runtime)@ && (r matches Err(LibraryLoadError::NotFound)),
                Some(text) => library_text_rel(text@, old(runtime)@, final(runtime)@, library_result_view(r)),
            },
        },
{
    match builtin_library_named(name) {
        Some(lib) => Ok(lib),
        None => {
            let text = match local {
                Some(t) => Some(t),
                None => user,
            };
            match text {
                None => Err(LibraryLoadError::NotFound),
                Some(t) => load_library_text(&t, runtime, host),
            }
        },
    }
}

/// Loads a library from the text of its file (see `library_text_rel`).
pub fn load_library_text<H: Host>(src: &String, runtime: &mut Runtime, host: &mut H) -> (r: Result<Library, LibraryLoadError>)
    ensures
        library_text_rel(src@, old(runtime)@, final(runtime)@, library_result_view(r)),
{
    match scan_and_parse(src) {
        Err(e) => Err(LibraryLoadError::ParsingFailed(e)),
        Ok(block) => {
            let frame = runtime.environments.len();
            let library_env = Environment::new(None).into_shared(runtime);
            let x = block.execute(&library_env, runtime, host);
            proof {
                assert(step2(runtime@, statement_result_view(x)));
            }
            Ok(SharedEnvironment { id: frame }.as_library(runtime))
        },
    }
}

} // verus!

//! Classification of exclusive create operations into localized response
//! envelopes: success answers HTTP 200, an existing target or any other
//! filesystem failure answers HTTP 400 with the matching localized message.

use vstd::prelude::*;
use vstd::string::*;
use crate::AppResponse;
use crate::localization::{args_map, message_spec, pairs_map, pairs_of, LocalizerState};

verus! {

/// The classified outcome of one exclusive filesystem create call: the
/// target was created, the target already existed, or the call failed for
/// any other reason.
pub enum CreateOutcome {
    Success,
    AlreadyExists,
    OtherError,
}

/// The message key answering a create-directory outcome.
pub open spec fn create_directory_key(outcome: CreateOutcome) -> Seq<char> {
    match outcome {
        CreateOutcome::Success => "create-directory-success"@,
        CreateOutcome::AlreadyExists => "create-directory-already-exists"@,
        CreateOutcome::OtherError => "create-directory-error"@,
    }
}

/// The message key answering a create-file outcome.
pub open spec fn create_file_key(outcome: CreateOutcome) -> Seq<char> {
    match outcome {
        CreateOutcome::Success => "create-file-success"@,
        CreateOutcome::AlreadyExists => "create-file-already-exists"@,
        CreateOutcome::OtherError => "create-file-error"@,
    }
}

/// The envelope answering a directory-create outcome: HTTP 200 and success
/// exactly when the directory was created, HTTP 400 otherwise, with the
/// message for the outcome's key rendered under the original relative
/// directory string as the `directory` argument.
pub fn create_directory(
    localizer: &LocalizerState,
    language: &str,
    directory: &String,
    outcome: CreateOutcome,
) -> (r: (u16, AppResponse))
    ensures
        r.0 == 200 <==> outcome is Success,
        r.0 == 200 || r.0 == 400,
        r.1.success <==> outcome is Success,
        r.1.message@ == message_spec(
            localizer.locales@,
            localizer.fallback_language@,
            language@,
            create_directory_key(outcome),
            Map::<Seq<char>, Seq<char>>::empty().insert("directory"@, directory@),
        ),
{
    let mut args: Vec<(String, String)> = Vec::new();
    args.push(("directory".to_owned(), directory.clone()));
    proof {
        let s = pairs_of(args@);
        assert(s =~= seq![("directory"@, directory@)]);
        assert(s.drop_first() =~= Seq::<(Seq<char>, Seq<char>)>::empty());
        assert(pairs_map(s.drop_first()) =~= Map::<Seq<char>, Seq<char>>::empty());
        assert(args_map(args@) =~= Map::<Seq<char>, Seq<char>>::empty().insert(
            "directory"@,
            directory@,
        ));
    }
    match outcome {
        CreateOutcome::Success => {
            let message = localizer.get_message(language, "create-directory-success", &args);
            (200, AppResponse { success: true, message })
        },
        CreateOutcome::AlreadyExists => {
            let message = localizer.get_message(
                language,
                "create-directory-already-exists",
                &args,
            );
            (400, AppResponse { success: false, message })
        },
        CreateOutcome::OtherError => {
            let message = localizer.get_message(language, "create-directory-error", &args);
            (400, AppResponse { success: false, message })
        },
    }
}

/// The envelope answering a file-create outcome: HTTP 200 and success
/// exactly when the file was created exclusively, HTTP 400 otherwise —
/// an existing file is never overwritten and always answers the
/// already-exists message — with the original relative file name as the
/// `file` argument.
pub fn create_file(
    localizer: &LocalizerState,
    language: &str,
    file: &String,
    outcome: CreateOutcome,
) -> (r: (u16, AppResponse))
    ensures
        r.0 == 200 <==> outcome is Success,
        r.0 == 200 || r.0 == 400,
        r.1.success <==> outcome is Success,
        r.1.message@ == message_spec(
            localizer.locales@,
            localizer.fallback_language@,
            language@,
            create_file_key(outcome),
            Map::<Seq<char>, Seq<char>>::empty().insert("file"@, file@),
        ),
{
    let mut args: Vec<(String, String)> = Vec::new();
    args.push(("file".to_owned(), file.clone()));
    proof {
        let s = pairs_of(args@);
        assert(s =~= seq![("file"@, file@)]);
        assert(s.drop_first() =~= Seq::<(Seq<char>, Seq<char>)>::empty());
        assert(pairs_map(s.drop_first()) =~= Map::<Seq<char>, Seq<char>>::empty());
        assert(args_map(args@) =~= Map::<Seq<char>, Seq<char>>::empty().insert("file"@, file@));
    }
    match outcome {
        CreateOutcome::Success => {
            let message = localizer.get_message(language, "create-file-success", &args);
            (200, AppResponse { success: true, message })
        },
        CreateOutcome::AlreadyExists => {
            let message = localizer.get_message(language, "create-file-already-exists", &args);
            (400, AppResponse { success: false, message })
        },
        CreateOutcome::OtherError => {
            let message = localizer.get_message(language, "create-file-error", &args);
            (400, AppResponse { success: false, message })
        },
    }
}

} // verus!

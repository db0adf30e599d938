use crate::error::ShareError;
use vstd::prelude::*;

verus! {

/// The command that encrypts one file for one recipient, and the path at
/// which it leaves the ciphertext.
#[derive(Debug)]
pub struct EncryptionCommand {
    pub program: String,
    pub arguments: Vec<String>,
    pub output_path: String,
}

/// Where the ciphertext of the file at `file_path` is written.
pub open spec fn output_path_of(file_path: Seq<char>) -> Seq<char> {
    file_path + ".gpg"@
}

/// The arguments that make the tool encrypt the file at `file_path` for
/// `recipient`.
pub open spec fn arguments_of(file_path: Seq<char>, recipient: Seq<char>) -> Seq<Seq<char>> {
    seq![
        "--encrypt"@,
        "--recipient"@,
        recipient,
        "--output"@,
        output_path_of(file_path),
        file_path,
    ]
}

/// Writes the path at which the ciphertext of the file at `file_path` is
/// kept.
pub fn output_path(file_path: &str) -> (path: String)
    ensures
        path@ == output_path_of(file_path@),
{
    let mut path = file_path.to_owned();
    path.append(".gpg");
    path
}

/// Says how to encrypt the file at `file_path` for `recipient`.
pub fn encryption_command(file_path: &str, recipient: &str) -> (command: EncryptionCommand)
    ensures
        command.program@ == "gpg"@,
        command.arguments.deep_view() == arguments_of(file_path@, recipient@),
        command.output_path@ == output_path_of(file_path@),
{
    let output_path = output_path(file_path);
    let mut arguments: Vec<String> = Vec::new();
    arguments.push("--encrypt".to_owned());
    arguments.push("--recipient".to_owned());
    arguments.push(recipient.to_owned());
    arguments.push("--output".to_owned());
    arguments.push(output_path.clone());
    arguments.push(file_path.to_owned());
    EncryptionCommand { program: "gpg".to_owned(), arguments, output_path }
}

/// How a run of the encryption command ended.
#[derive(Debug)]
pub enum ToolOutcome {
    /// The tool was not run, or could not be started.
    NotStarted,
    /// The tool ran and exited with a status other than zero.
    Failed,
    /// The tool exited with status zero, but its output could not be read.
    OutputUnreadable,
    /// The tool exited with status zero and left these bytes.
    Finished(Vec<u8>),
}

/// The ciphertext that a run of the tool gave: what it left where it
/// finished, and an encryption error in every other case.
pub open spec fn ciphertext_of(outcome: ToolOutcome) -> Result<Seq<u8>, ShareError> {
    match outcome {
        ToolOutcome::Finished(bytes) => Ok(bytes@),
        _ => Err(ShareError::Encryption),
    }
}

/// Turns the end of a run of the tool into the ciphertext or the error.
pub fn encrypted_content(outcome: ToolOutcome) -> (content: Result<Vec<u8>, ShareError>)
    ensures
        match content {
            Ok(bytes) => ciphertext_of(outcome) == Ok::<Seq<u8>, ShareError>(bytes@),
            Err(error) => ciphertext_of(outcome) == Err::<Seq<u8>, ShareError>(error),
        },
{
    match outcome {
        ToolOutcome::Finished(bytes) => Ok(bytes),
        ToolOutcome::NotStarted => Err(ShareError::Encryption),
        ToolOutcome::Failed => Err(ShareError::Encryption),
        ToolOutcome::OutputUnreadable => Err(ShareError::Encryption),
    }
}

} // verus!

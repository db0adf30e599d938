use secure_share::encryption::{encrypted_content, encryption_command, ToolOutcome};
use secure_share::error::ShareError;

#[test]
fn command_encrypts_for_the_recipient_into_the_output_path() {
    let command = encryption_command("report.txt", "test@example.com");
    assert_eq!(command.program, "gpg");
    assert_eq!(
        command.arguments,
        vec![
            "--encrypt",
            "--recipient",
            "test@example.com",
            "--output",
            "report.txt.gpg",
            "report.txt"
        ]
    );
    assert_eq!(command.output_path, "report.txt.gpg");
}

#[test]
fn output_path_is_the_whole_path_and_a_suffix() {
    let command = encryption_command("/srv/share/archive.tar.gz", "a@b.c");
    assert_eq!(command.output_path, "/srv/share/archive.tar.gz.gpg");
    assert_eq!(command.arguments[4], "/srv/share/archive.tar.gz.gpg");
    assert_eq!(command.arguments[5], "/srv/share/archive.tar.gz");
    let bare = encryption_command("", "");
    assert_eq!(bare.output_path, ".gpg");
    assert_eq!(bare.arguments, vec!["--encrypt", "--recipient", "", "--output", ".gpg", ""]);
}

#[test]
fn finished_run_gives_its_bytes() {
    assert_eq!(encrypted_content(ToolOutcome::Finished(vec![5, 6, 7])), Ok(vec![5, 6, 7]));
    assert_eq!(encrypted_content(ToolOutcome::Finished(vec![])), Ok(vec![]));
}

#[test]
fn every_other_end_is_an_encryption_error() {
    assert_eq!(encrypted_content(ToolOutcome::NotStarted), Err(ShareError::Encryption));
    assert_eq!(encrypted_content(ToolOutcome::Failed), Err(ShareError::Encryption));
    assert_eq!(encrypted_content(ToolOutcome::OutputUnreadable), Err(ShareError::Encryption));
}

use vstd::prelude::*;

verus! {

/// One shared file as the server holds it: the encrypted payload and the
/// parts of the source file's name from which a receiver rebuilds a file name.
#[derive(Debug)]
pub struct FileMetadata {
    pub original_name: String,
    pub extension: String,
    pub encrypted_content: Vec<u8>,
}

/// The mathematical value of a [`FileMetadata`].
pub struct FileMetadataView {
    pub original_name: Seq<char>,
    pub extension: Seq<char>,
    pub encrypted_content: Seq<u8>,
}

impl View for FileMetadata {
    type V = FileMetadataView;

    open spec fn view(&self) -> FileMetadataView {
        FileMetadataView {
            original_name: self.original_name@,
            extension: self.extension@,
            encrypted_content: self.encrypted_content@,
        }
    }
}

impl Clone for FileMetadata {
    fn clone(&self) -> (copy: Self)
        ensures
            copy@ == self@,
    {
        FileMetadata {
            original_name: self.original_name.clone(),
            extension: self.extension.clone(),
            encrypted_content: self.encrypted_content.clone(),
        }
    }
}

impl FileMetadataView {
    /// The name under which a receiver stores the payload before decrypting it.
    pub open spec fn encrypted_file_name(self) -> Seq<char> {
        self.decrypted_file_name() + "_enc"@
    }

    /// The name under which a receiver stores the decrypted file.
    pub open spec fn decrypted_file_name(self) -> Seq<char> {
        self.original_name + "."@ + self.extension
    }
}

impl FileMetadata {
    /// The name under which a receiver stores the payload before decrypting it.
    pub fn encrypted_file_name(&self) -> (name: String)
        ensures
            name@ == self@.encrypted_file_name(),
    {
        let mut name = self.decrypted_file_name();
        name.append("_enc");
        name
    }

    /// The name under which a receiver stores the decrypted file.
    pub fn decrypted_file_name(&self) -> (name: String)
        ensures
            name@ == self@.decrypted_file_name(),
    {
        let mut name = self.original_name.clone();
        name.append(".");
        name.append(self.extension.as_str());
        name
    }
}

} // verus!

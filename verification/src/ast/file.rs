//! DSDL files, and their normal form from which the DSDL signature is computed.

use vstd::prelude::*;
use vstd::utf8::encode_utf8;
use crate::ast::file_name::file_name_text;
use crate::ast::file_name::FileName;
use crate::ast::type_definition::normalized_definition_text;
use crate::ast::type_definition::type_definition_text;
use crate::ast::type_definition::TypeDefinition;
use crate::crc::crc64we;
use crate::crc::CRC64WE;
use crate::normalize::is_type_definition_normal_form;
use crate::normalize::type_definition_normalizable;
use crate::text::push_char;

verus! {

/// A DSDL file
#[derive(Clone, Debug, PartialEq, Eq)]
pub struct File {
    pub name: FileName,
    pub definition: TypeDefinition,
}

/// A normalized `File`
///
/// The underlying file can't be exposed in a mutable way. Any change to the normalized format
/// would "denormalize" it. The `NormalizedFile` can be used to calculate the DSDL signature.
#[derive(Clone, Debug, PartialEq, Eq)]
pub struct NormalizedFile(File);

/// The text of a file, as `Display` writes it.
pub open spec fn file_text(f: File) -> Seq<char> {
    seq!['F', 'i', 'l', 'e', ':', ' '] + file_name_text(f.name) + seq!['\n'] + type_definition_text(
        f.definition,
    )
}

/// The text of a normalized file, as `Display` writes it: the full name, then each line of the
/// definition after a line break, with the response marker of a service on a line of its own.
/// Its CRC-64-WE is the DSDL signature.
pub open spec fn normalized_text(f: File) -> Seq<char> {
    file_name_text(f.name) + normalized_definition_text(f.definition)
}

impl View for NormalizedFile {
    type V = File;

    /// The normalized file.
    closed spec fn view(&self) -> File {
        self.0
    }
}

impl NormalizedFile {
    /// Return a reference to the underlying `File`
    pub fn as_file(&self) -> (f: &File)
        ensures
            *f == self@,
    {
        &self.0
    }

    /// Turn the `NormalizedFile` into the underlying `File`
    pub fn into_file(self) -> (f: File)
        ensures
            f == self@,
    {
        self.0
    }

    /// Calculate the DSDL signature: the CRC-64-WE of the normalized file's text.
    pub fn dsdl_signature(&self) -> (sig: u64)
        ensures
            sig == crc64we(encode_utf8(normalized_text(self@))),
    {
        let mut crc = CRC64WE::new();
        let text = self.to_string();
        crc.add(text.as_str().as_bytes());
        crc.value()
    }

    /// Appends the normalized file, as `Display` writes it, to `s`.
    pub fn write_to(&self, s: &mut String)
        ensures
            final(s)@ == old(s)@ + normalized_text(self@),
    {
        let ghost start = s@;
        self.0.name.write_to(s);
        self.0.definition.write_normalized_to(s);
        assert(s@ =~= start + normalized_text(self@));
    }

    /// The normalized file as `Display` writes it.
    pub fn to_string(&self) -> (s: String)
        ensures
            s@ == normalized_text(self@),
    {
        let mut s = String::new();
        self.write_to(&mut s);
        assert(Seq::<char>::empty() + normalized_text(self@) =~= normalized_text(self@));
        s
    }
}

impl File {
    /// Normalizes a file according to the uavcan specification.
    pub fn normalize(self) -> (n: NormalizedFile)
        requires
            type_definition_normalizable(self.definition),
        ensures
            n@.name == self.name,
            is_type_definition_normal_form(n@.definition, self.definition, self.name),
    {
        let definition = self.definition.normalize(&self.name);
        NormalizedFile(File { name: self.name, definition: definition })
    }

    /// Appends the file, as `Display` writes it, to `s`.
    pub fn write_to(&self, s: &mut String)
        ensures
            final(s)@ == old(s)@ + file_text(*self),
    {
        let ghost start = s@;
        push_char(s, 'F');
        push_char(s, 'i');
        push_char(s, 'l');
        push_char(s, 'e');
        push_char(s, ':');
        push_char(s, ' ');
        self.name.write_to(s);
        push_char(s, '\n');
        self.definition.write_to(s);
        assert(s@ =~= start + file_text(*self));
    }

    /// The file as `Display` writes it.
    pub fn to_string(&self) -> (s: String)
        ensures
            s@ == file_text(*self),
    {
        let mut s = String::new();
        self.write_to(&mut s);
        assert(Seq::<char>::empty() + file_text(*self) =~= file_text(*self));
        s
    }
}

} // verus!

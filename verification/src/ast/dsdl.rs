//! A set of DSDL files, with the data type signatures of their types.

use vstd::prelude::*;
use vstd::utf8::encode_utf8;
use crate::ast::attribute_definition::AttributeDefinition;
use crate::ast::file::normalized_text;
use crate::ast::file::File;
use crate::ast::file_name::file_name_result;
use crate::ast::file_name::file_name_outcome;
use crate::ast::file_name::file_name_text;
use crate::ast::file_name::FileName;
use crate::ast::file_name::FileNameOutcome;
use crate::ast::file_name::ParseFileNameError;
use crate::ast::line::Line;
use crate::ast::ty::composite_text;
use crate::ast::ty::Ty;
use crate::ast::type_definition::broken_lines_text;
use crate::ast::type_definition::broken_marker;
use crate::ast::type_definition::MessageDefinition;
use crate::ast::type_definition::ServiceDefinition;
use crate::ast::type_definition::TypeDefinition;
use crate::crc::crc64we;
use crate::crc::crc_fold;
use crate::crc::crc_output;
use crate::crc::le_bytes;
use crate::crc::CRC64WE;
use crate::crc::CRC_MASK;
use crate::lexer::is_lexing_of;
use crate::lexer::lexes_fully;
use crate::lexer::tokenize;
use crate::normalize::lines_normal_form;
use crate::normalize::is_type_definition_normal_form;
use crate::normalize::lines_normalized;
use crate::normalize::type_definition_normalizable;
use crate::parser::definition::parse_type_definition;
use crate::parser::definition::parse_outcome;
use crate::parser::error::ParseError;
use crate::text::chars_of;
use crate::text::push_char;

verus! {

/// What the tokens of `text` parse to, as `parse_definition` reads them.
pub open spec fn definition_result(text: Seq<char>, r: Result<TypeDefinition, ParseError>) -> bool {
    exists|toks: Seq<(usize, crate::lexer::Token, usize)>|
        is_lexing_of(text, toks) && parse_outcome(toks, r)
}

/// Whether the lexer can go through `text`: it fits and nothing in it makes the lexer panic.
pub open spec fn lexable(text: Seq<char>) -> bool {
    encode_utf8(text).len() < usize::MAX && lexes_fully(text, 0)
}

/// Parses the text of a type definition: the lexer's tokens, read as lines.
pub fn parse_definition(text: &str) -> (r: Result<TypeDefinition, ParseError>)
    requires
        lexable(text@),
    ensures
        definition_result(text@, r),
{
    let toks = tokenize(text);
    parse_type_definition(toks.as_slice())
}

/// Whether a file with the name `name` and the text `text` can be read without a panic: the
/// name is no version without a name, and the lexer goes through the text.
pub fn readable(name: &str, text: &str) -> (r: bool)
    requires
        encode_utf8(text@).len() < usize::MAX,
    ensures
        r == (!(file_name_outcome(name@) is Panic) && lexable(text@)),
{
    !crate::ast::file_name::file_name_panics(name) && crate::lexer::lexes(text)
}

/// Errors that may occur when reading a DSDL file.
#[derive(Debug, Clone, PartialEq)]
pub enum ReadError {
    /// The file's name is not a DSDL file name.
    FileName(ParseFileNameError),
    /// The file's text is not a type definition.
    Definition(ParseError),
}

/// Reads a DSDL file from its name (such as `uavcan.protocol.341.NodeStatus.uavcan`) and its
/// text.
pub fn parse_file(name: &str, text: &str) -> (r: Result<File, ReadError>)
    requires
        !(file_name_outcome(name@) is Panic),
        lexable(text@),
    ensures
        file_name_outcome(name@) matches FileNameOutcome::Fail(e) ==> r == Err::<File, ReadError>(
            ReadError::FileName(e),
        ),
        file_name_outcome(name@) is Parsed ==> match r {
            Ok(f) => file_name_result(name@, Ok(f.name)) && definition_result(text@, Ok(f.definition)),
            Err(ReadError::Definition(e)) => definition_result(text@, Err(e)),
            Err(ReadError::FileName(_)) => false,
        },
{
    let file_name = match FileName::from_str(name) {
        Ok(n) => n,
        Err(e) => {
            return Err(ReadError::FileName(e));
        },
    };
    match parse_definition(text) {
        Ok(definition) => Ok(File { name: file_name, definition }),
        Err(e) => Err(ReadError::Definition(e)),
    }
}

// Signatures

/// The text of the normal form of a type definition.
pub open spec fn normal_definition_text(t: TypeDefinition, f: FileName) -> Seq<char> {
    match t {
        TypeDefinition::Message(m) => broken_lines_text(lines_normal_form(m.0@, f)),
        TypeDefinition::Service(s) => broken_lines_text(lines_normal_form(s.request.0@, f))
            + broken_marker() + broken_lines_text(lines_normal_form(s.response.0@, f)),
    }
}

/// The DSDL signature of a file: the CRC-64-WE of its normalized text.
pub open spec fn file_dsdl_signature(f: File) -> u64 {
    crc64we(
        encode_utf8(file_name_text(f.name) + normal_definition_text(f.definition, f.name)),
    )
}

/// The full names of the composite types of the fields of lines, in order.
pub open spec fn nested_types(ls: Seq<Line>) -> Seq<Seq<char>>
    decreases ls.len(),
{
    if ls.len() == 0 {
        Seq::<Seq<char>>::empty()
    } else {
        let rest = nested_types(ls.drop_last());
        match ls.last() {
            Line::Definition { definition: AttributeDefinition::Field(f), .. } => match f.field_type {
                Ty::Composite(c) => rest.push(composite_text(c)),
                _ => rest,
            },
            _ => rest,
        }
    }
}

/// The full names of the composite types that the fields of a normalized definition use, in
/// order: for a service, the request's, then the response's.
pub open spec fn definition_nested_types(t: TypeDefinition, f: FileName) -> Seq<Seq<char>> {
    match t {
        TypeDefinition::Message(m) => nested_types(lines_normal_form(m.0@, f)),
        TypeDefinition::Service(s) => nested_types(lines_normal_form(s.request.0@, f)) + nested_types(
            lines_normal_form(s.response.0@, f),
        ),
    }
}

/// The position of the first file whose full name is `name`.
pub open spec fn file_index(files: Seq<File>, name: Seq<char>) -> Option<int>
    decreases files.len(),
{
    if files.len() == 0 {
        None
    } else if file_name_text(files[0].name) == name {
        Some(0)
    } else {
        match file_index(files.drop_first(), name) {
            Some(i) => Some(i + 1),
            None => None,
        }
    }
}

/// What `file_index` finds is a file of that name, and nothing before it has that name.
pub proof fn lemma_file_index(files: Seq<File>, name: Seq<char>)
    ensures
        file_index(files, name) matches Some(i) ==> 0 <= i < files.len() && file_name_text(
            files[i].name,
        ) == name && forall|j: int| 0 <= j < i ==> file_name_text(#[trigger] files[j].name) != name,
        file_index(files, name) is None ==> forall|j: int|
            0 <= j < files.len() ==> file_name_text(#[trigger] files[j].name) != name,
    decreases files.len(),
{
    if files.len() > 0 {
        lemma_file_index(files.drop_first(), name);
        assert forall|j: int| 1 <= j < files.len() implies #[trigger] files[j] == files.drop_first()[j - 1] by {}
    }
}

/// A file added to a set is found under its full name when no file before it has that name,
/// and a file found before the addition is still the one found after it.
pub proof fn law_added_file_is_found(files: Seq<File>, f: File, name: Seq<char>)
    ensures
        file_index(files, name) matches Some(i) ==> file_index(files.push(f), name) == Some(i),
        file_index(files, name) is None && file_name_text(f.name) == name ==> file_index(
            files.push(f),
            name,
        ) == Some(files.len() as int),
        file_index(files, name) is None && file_name_text(f.name) != name ==> file_index(
            files.push(f),
            name,
        ) is None,
    decreases files.len(),
{
    if files.len() > 0 {
        assert(files.push(f).drop_first() =~= files.drop_first().push(f));
        law_added_file_is_found(files.drop_first(), f, name);
    } else {
        assert(files.push(f).drop_first() =~= Seq::<File>::empty());
        assert(file_index(Seq::<File>::empty(), name) is None);
    }
}

/// The DSDL signature that a set of files gives a file is the one that the file's normal form
/// reports: the CRC-64-WE of the normal form's text.
pub proof fn law_set_signature_is_normal_form_signature(f: File, n: File)
    requires
        n.name == f.name,
        is_type_definition_normal_form(n.definition, f.definition, f.name),
    ensures
        file_dsdl_signature(f) == crc64we(encode_utf8(normalized_text(n))),
{
    assert(normal_definition_text(f.definition, f.name) == crate::ast::type_definition::normalized_definition_text(
        n.definition,
    ));
}

/// A type whose fields use no composite type has its DSDL signature as its data type
/// signature.
pub proof fn law_plain_type_signature(files: Seq<File>, name: Seq<char>, fuel: nat)
    requires
        fuel > 0,
        file_index(files, name) matches Some(i) && definition_nested_types(
            files[i].definition,
            files[i].name,
        ).len() == 0,
    ensures
        data_type_sig(files, name, fuel) == Some(file_dsdl_signature(files[file_index(files, name)->0])),
{
    let i = file_index(files, name)->0;
    let f = files[i];
    let names = definition_nested_types(f.definition, f.name);
    assert(names =~= Seq::<Seq<char>>::empty());
    assert(nested_sigs(files, names, (fuel - 1) as nat) == Some(Seq::<u64>::empty()));
    let sig = file_dsdl_signature(f);
    assert(extend_all(sig ^ CRC_MASK, Seq::<u64>::empty()) == sig ^ CRC_MASK);
    assert((sig ^ CRC_MASK) ^ CRC_MASK == sig) by (bit_vector);
}

/// The register after a hash has been extended with a signature, as the DSDL specification
/// describes: the signature's bytes, then those of the value before, least significant first.
pub open spec fn extend_register(reg: u64, sig: u64) -> u64 {
    crc_fold(reg, le_bytes(sig) + le_bytes(crc_output(reg)))
}

/// The register after extending with each signature in turn.
pub open spec fn extend_all(reg: u64, sigs: Seq<u64>) -> u64
    decreases sigs.len(),
{
    if sigs.len() == 0 {
        reg
    } else {
        extend_register(extend_all(reg, sigs.drop_last()), sigs.last())
    }
}

/// The data type signature of the type named `name`: its DSDL signature, extended with the
/// data type signatures of the composite types of its fields, in order. `None` when a type is
/// missing, or nesting goes deeper than `fuel` levels.
pub open spec fn data_type_sig(files: Seq<File>, name: Seq<char>, fuel: nat) -> Option<u64>
    decreases fuel, 0nat,
{
    if fuel == 0 {
        None
    } else {
        match file_index(files, name) {
            None => None,
            Some(i) => {
                let f = files[i];
                match nested_sigs(files, definition_nested_types(f.definition, f.name), (fuel - 1) as nat) {
                    None => None,
                    Some(sigs) => Some(
                        crc_output(extend_all(file_dsdl_signature(f) ^ CRC_MASK, sigs)),
                    ),
                }
            },
        }
    }
}

/// The data type signatures of the types named, in order; `None` if one has none.
pub open spec fn nested_sigs(files: Seq<File>, names: Seq<Seq<char>>, fuel: nat) -> Option<Seq<u64>>
    decreases fuel, names.len() + 1,
{
    if names.len() == 0 {
        Some(Seq::<u64>::empty())
    } else {
        match nested_sigs(files, names.drop_last(), fuel) {
            None => None,
            Some(a) => match data_type_sig(files, names.last(), fuel) {
                None => None,
                Some(b) => Some(a.push(b)),
            },
        }
    }
}

/// A set of DSDL files.
pub struct DSDL {
    files: Vec<File>,
}

impl View for DSDL {
    type V = Seq<File>;

    /// The files, in the order they were added.
    closed spec fn view(&self) -> Seq<File> {
        self.files@
    }
}

/// Whether every file of a set can be normalized.
pub open spec fn all_normalizable(files: Seq<File>) -> bool {
    forall|i: int| 0 <= i < files.len() ==> type_definition_normalizable(#[trigger] files[i].definition)
}

/// The full name of a file, as characters.
fn full_name(f: &File) -> (v: Vec<char>)
    ensures
        v@ == file_name_text(f.name),
{
    let s = f.name.to_string();
    chars_of(s.as_str())
}

/// Whether two character sequences are equal.
fn chars_equal(a: &[char], b: &[char]) -> (r: bool)
    ensures
        r == (a@ == b@),
{
    if a.len() != b.len() {
        return false;
    }
    let mut i: usize = 0;
    while i < a.len()
        invariant
            0 <= i <= a@.len(),
            a@.len() == b@.len(),
            forall|j: int| 0 <= j < i ==> a@[j] == b@[j],
        decreases a@.len() - i,
    {
        if a[i] != b[i] {
            return false;
        }
        i = i + 1;
    }
    assert(a@ =~= b@);
    true
}

/// The full names of the composite types of the fields of lines.
fn nested_of(ls: &Vec<Line>) -> (r: Vec<Vec<char>>)
    ensures
        r@.map_values(|v: Vec<char>| v@) == nested_types(ls@),
{
    let mut out: Vec<Vec<char>> = Vec::new();
    let mut i: usize = 0;
    assert(ls@.take(0) =~= Seq::<Line>::empty());
    assert(out@.map_values(|v: Vec<char>| v@) =~= nested_types(ls@.take(0)));
    while i < ls.len()
        invariant
            0 <= i <= ls@.len(),
            out@.map_values(|v: Vec<char>| v@) == nested_types(ls@.take(i as int)),
        decreases ls@.len() - i,
    {
        let ghost before = out@.map_values(|v: Vec<char>| v@);
        proof {
            let t = ls@.take(i + 1);
            assert(t.drop_last() =~= ls@.take(i as int));
            assert(t.last() == ls@[i as int]);
        }
        match &ls[i] {
            Line::Definition { definition: AttributeDefinition::Field(f), .. } => match &f.field_type {
                Ty::Composite(c) => {
                    let s = c.to_string();
                    let v = chars_of(s.as_str());
                    out.push(v);
                    assert(out@.map_values(|v: Vec<char>| v@) =~= before.push(composite_text(*c)));
                },
                _ => {},
            },
            _ => {},
        }
        i = i + 1;
    }
    assert(ls@.take(ls@.len() as int) =~= ls@);
    out
}

impl DSDL {
    /// An empty set of files.
    pub fn new() -> (d: DSDL)
        ensures
            d@ == Seq::<File>::empty(),
    {
        DSDL { files: Vec::new() }
    }

    /// Adds a file to the set.
    pub fn add_file(&mut self, file: File)
        ensures
            final(self)@ == old(self)@.push(file),
    {
        self.files.push(file);
    }

    /// Reads a DSDL file from its name and text, and adds it to the set.
    pub fn read_file(&mut self, name: &str, text: &str) -> (r: Result<(), ReadError>)
        requires
            !(file_name_outcome(name@) is Panic),
            lexable(text@),
        ensures
            r is Ok ==> final(self)@.len() == old(self)@.len() + 1 && final(self)@.drop_last() == old(
                self,
            )@ && file_name_result(name@, Ok(final(self)@.last().name)) && definition_result(
                text@,
                Ok(final(self)@.last().definition),
            ),
            r is Err ==> final(self)@ == old(self)@,
            file_name_outcome(name@) matches FileNameOutcome::Fail(e) ==> r == Err::<(), ReadError>(
                ReadError::FileName(e),
            ),
            file_name_outcome(name@) is Parsed ==> (r matches Err(x) ==> (x matches ReadError::Definition(
                e,
            ) && definition_result(text@, Err(e)))),
    {
        match parse_file(name, text) {
            Ok(f) => {
                self.files.push(f);
                assert(self.files@.drop_last() =~= old(self).files@);
                Ok(())
            },
            Err(e) => Err(e),
        }
    }

    /// The files of the set.
    pub fn files(&self) -> (fs: &Vec<File>)
        ensures
            fs@ == self@,
    {
        &self.files
    }

    /// The first file whose full name (namespace and name) is `name`.
    pub fn get_file(&self, name: &str) -> (r: Option<&File>)
        ensures
            match file_index(self@, name@) {
                Some(i) => r == Some(&self@[i]),
                None => r is None,
            },
    {
        let target = chars_of(name);
        let mut i: usize = 0;
        assert(self.files@.skip(0) =~= self.files@);
        while i < self.files.len()
            invariant
                0 <= i <= self.files@.len(),
                target@ == name@,
                file_index(self.files@, name@) == match file_index(self.files@.skip(i as int), name@) {
                    Some(j) => Some(j + i),
                    None => None,
                },
            decreases self.files@.len() - i,
        {
            let n = full_name(&self.files[i]);
            let ghost rest = self.files@.skip(i as int);
            assert(rest[0] == self.files@[i as int]);
            assert(rest.drop_first() =~= self.files@.skip(i + 1));
            if chars_equal(n.as_slice(), target.as_slice()) {
                return Some(&self.files[i]);
            }
            i = i + 1;
        }
        assert(self.files@.skip(i as int) =~= Seq::<File>::empty());
        None
    }

    /// The data type signature of the type named `name`: the DSDL signature of its file,
    /// extended with the data type signatures of the composite types of its fields, in order.
    /// `None` when a type is missing from the set, or types nest in a loop.
    pub fn data_type_signature(&self, name: &str) -> (r: Option<u64>)
        requires
            all_normalizable(self@),
        ensures
            r == data_type_sig(self@, name@, self@.len() as nat),
    {
        let v = chars_of(name);
        self.signature_of(v.as_slice(), self.files.len())
    }

    /// The data type signature of the type named `name`, with nesting at most `fuel` deep.
    fn signature_of(&self, name: &[char], fuel: usize) -> (r: Option<u64>)
        requires
            all_normalizable(self@),
        ensures
            r == data_type_sig(self@, name@, fuel as nat),
        decreases fuel, 0nat,
    {
        if fuel == 0 {
            return None;
        }
        let mut i: usize = 0;
        let mut found: Option<usize> = None;
        assert(self.files@.skip(0) =~= self.files@);
        while i < self.files.len()
            invariant_except_break
                found is None,
            invariant
                0 <= i <= self.files@.len(),
                self.files@.skip(self.files@.len() as int) =~= Seq::<File>::empty(),
                file_index(self.files@, name@) == match file_index(self.files@.skip(i as int), name@) {
                    Some(j) => Some(j + i),
                    None => None,
                },
            ensures
                found matches Some(k) ==> file_index(self.files@, name@) == Some(k as int),
                found is None ==> file_index(self.files@, name@) is None,
            decreases self.files@.len() - i,
        {
            let n = full_name(&self.files[i]);
            let ghost rest = self.files@.skip(i as int);
            assert(rest[0] == self.files@[i as int]);
            assert(rest.drop_first() =~= self.files@.skip(i + 1));
            if chars_equal(n.as_slice(), name) {
                found = Some(i);
                break;
            }
            i = i + 1;
        }
        let k = match found {
            None => {
                return None;
            },
            Some(k) => k,
        };
        proof {
            lemma_file_index(self.files@, name@);
        }
        let f = &self.files[k];
        assert(type_definition_normalizable(self@[k as int].definition));
        let base = file_signature(f);
        let names: Vec<Vec<char>> = match &f.definition {
            TypeDefinition::Message(m) => {
                let lines = lines_normalized(&m.0, &f.name);
                nested_of(&lines)
            },
            TypeDefinition::Service(s) => {
                let req = lines_normalized(&s.request.0, &f.name);
                let resp = lines_normalized(&s.response.0, &f.name);
                let mut a = nested_of(&req);
                let mut b = nested_of(&resp);
                let ghost va = a@.map_values(|v: Vec<char>| v@);
                let ghost vb = b@.map_values(|v: Vec<char>| v@);
                a.append(&mut b);
                assert(a@.map_values(|v: Vec<char>| v@) =~= va + vb);
                a
            },
        };
        let ghost want = definition_nested_types(f.definition, f.name);
        assert(names@.map_values(|v: Vec<char>| v@) == want);
        match self.signatures_of(&names, fuel - 1) {
            None => None,
            Some(sigs) => {
                let mut crc = CRC64WE::from_value(base);
                let mut j: usize = 0;
                assert(sigs@.take(0) =~= Seq::<u64>::empty());
                while j < sigs.len()
                    invariant
                        0 <= j <= sigs@.len(),
                        crc@ == extend_all(base ^ CRC_MASK, sigs@.take(j as int)),
                    decreases sigs@.len() - j,
                {
                    let ghost prev = crc@;
                    crc.extend(sigs[j]);
                    proof {
                        let t = sigs@.take(j + 1);
                        assert(t.drop_last() =~= sigs@.take(j as int));
                        assert(t.last() == sigs@[j as int]);
                    }
                    j = j + 1;
                }
                assert(sigs@.take(sigs@.len() as int) =~= sigs@);
                Some(crc.value())
            },
        }
    }

    /// The data type signatures of the types named, in order, with nesting at most `fuel` deep.
    fn signatures_of(&self, names: &Vec<Vec<char>>, fuel: usize) -> (r: Option<Vec<u64>>)
        requires
            all_normalizable(self@),
        ensures
            match nested_sigs(self@, names@.map_values(|v: Vec<char>| v@), fuel as nat) {
                Some(s) => r matches Some(v) && v@ == s,
                None => r is None,
            },
        decreases fuel, 1nat,
    {
        let ghost all = names@.map_values(|v: Vec<char>| v@);
        let mut out: Vec<u64> = Vec::new();
        let mut i: usize = 0;
        assert(all.take(0) =~= Seq::<Seq<char>>::empty());
        while i < names.len()
            invariant
                0 <= i <= names@.len(),
                all == names@.map_values(|v: Vec<char>| v@),
                all_normalizable(self@),
                nested_sigs(self@, all.take(i as int), fuel as nat) == Some(out@),
            decreases names@.len() - i,
        {
            let s = self.signature_of(names[i].as_slice(), fuel);
            proof {
                let t = all.take(i + 1);
                assert(t.drop_last() =~= all.take(i as int));
                assert(t.last() == names@[i as int]@);
            }
            match s {
                None => {
                    proof {
                        lemma_nested_sigs_none(self@, all, (i + 1) as int, fuel as nat);
                    }
                    return None;
                },
                Some(x) => out.push(x),
            }
            i = i + 1;
        }
        assert(all.take(names@.len() as int) =~= all);
        Some(out)
    }
}

/// Once a prefix of the names has no signatures, neither have the names.
proof fn lemma_nested_sigs_none(files: Seq<File>, names: Seq<Seq<char>>, k: int, fuel: nat)
    requires
        0 <= k <= names.len(),
        nested_sigs(files, names.take(k), fuel) is None,
    ensures
        nested_sigs(files, names, fuel) is None,
    decreases names.len() - k,
{
    if k < names.len() {
        let t = names.take(k + 1);
        assert(t.drop_last() =~= names.take(k));
        lemma_nested_sigs_none(files, names, k + 1, fuel);
    } else {
        assert(names.take(k) =~= names);
    }
}

/// The DSDL signature of a file: the CRC-64-WE of its normalized text.
pub(crate) fn file_signature(f: &File) -> (sig: u64)
    requires
        type_definition_normalizable(f.definition),
    ensures
        sig == file_dsdl_signature(*f),
{
    let mut text = f.name.to_string();
    match &f.definition {
        TypeDefinition::Message(m) => {
            let lines = MessageDefinition(lines_normalized(&m.0, &f.name));
            lines.write_broken_lines_to(&mut text);
        },
        TypeDefinition::Service(s) => {
            let req = MessageDefinition(lines_normalized(&s.request.0, &f.name));
            let resp = MessageDefinition(lines_normalized(&s.response.0, &f.name));
            req.write_broken_lines_to(&mut text);
            push_char(&mut text, '\n');
            push_char(&mut text, '-');
            push_char(&mut text, '-');
            push_char(&mut text, '-');
            resp.write_broken_lines_to(&mut text);
        },
    }
    assert(text@ =~= file_name_text(f.name) + normal_definition_text(f.definition, f.name));
    let mut crc = CRC64WE::new();
    crc.add(text.as_str().as_bytes());
    crc.value()
}

/// The normal forms of lines one after the other are those of each part.
proof fn lemma_lines_normal_form_concat(a: Seq<Line>, b: Seq<Line>, f: FileName)
    ensures
        lines_normal_form(a + b, f) == lines_normal_form(a, f) + lines_normal_form(b, f),
    decreases b.len(),
{
    if b.len() == 0 {
        assert(a + b =~= a);
        assert(lines_normal_form(b, f) =~= Seq::<Line>::empty());
        assert(lines_normal_form(a, f) + Seq::<Line>::empty() =~= lines_normal_form(a, f));
    } else {
        lemma_lines_normal_form_concat(a, b.drop_last(), f);
        assert((a + b).drop_last() =~= a + b.drop_last());
        assert((a + b).last() == b.last());
        let x = lines_normal_form(a, f);
        let y = lines_normal_form(b.drop_last(), f);
        match crate::normalize::line_normal_form(b.last(), f) {
            Some(l) => assert((x + y).push(l) =~= x + y.push(l)),
            None => {},
        }
    }
}

/// The nested types of lines one after the other are those of each part.
proof fn lemma_nested_types_concat(a: Seq<Line>, b: Seq<Line>)
    ensures
        nested_types(a + b) == nested_types(a) + nested_types(b),
    decreases b.len(),
{
    if b.len() == 0 {
        assert(a + b =~= a);
        assert(nested_types(a) + Seq::<Seq<char>>::empty() =~= nested_types(a));
    } else {
        lemma_nested_types_concat(a, b.drop_last());
        assert((a + b).drop_last() =~= a + b.drop_last());
        assert((a + b).last() == b.last());
        let x = nested_types(a);
        let y = nested_types(b.drop_last());
        match b.last() {
            Line::Definition { definition: AttributeDefinition::Field(g), .. } => match g.field_type {
                Ty::Composite(c) => assert((x + y).push(composite_text(c)) =~= x + y.push(composite_text(c))),
                _ => {},
            },
            _ => {},
        }
    }
}

/// The nested types of a service, whose signatures extend its DSDL signature, are those of its
/// request, followed by those of its response.
pub proof fn law_service_nested_types(s: ServiceDefinition, f: FileName)
    ensures
        definition_nested_types(TypeDefinition::Service(s), f) == definition_nested_types(
            TypeDefinition::Message(s.request),
            f,
        ) + definition_nested_types(TypeDefinition::Message(s.response), f),
{
}

/// The nested types of a message are those of its first lines followed by those of the rest.
pub proof fn law_message_nested_types_split(m: MessageDefinition, a: MessageDefinition, b: MessageDefinition, f: FileName)
    requires
        m.0@ == a.0@ + b.0@,
    ensures
        definition_nested_types(TypeDefinition::Message(m), f) == definition_nested_types(
            TypeDefinition::Message(a),
            f,
        ) + definition_nested_types(TypeDefinition::Message(b), f),
{
    lemma_lines_normal_form_concat(a.0@, b.0@, f);
    lemma_nested_types_concat(lines_normal_form(a.0@, f), lines_normal_form(b.0@, f));
}

/// A message of one line has, as nested type, the full name of the composite type of its
/// field (in the file's namespace where the type names none), if the line is a field of a
/// composite type; and none otherwise.
pub proof fn law_message_nested_types_line(m: MessageDefinition, f: FileName)
    requires
        m.0@.len() == 1,
    ensures
        definition_nested_types(TypeDefinition::Message(m), f) == match m.0@[0] {
            Line::Definition { definition: AttributeDefinition::Field(g), .. } => match g.field_type {
                Ty::Composite(c) => seq![
                    match c.namespace {
                        Some(ns) => ns@,
                        None => f.namespace@,
                    } + seq!['.'] + c.name@,
                ],
                _ => Seq::<Seq<char>>::empty(),
            },
            _ => Seq::<Seq<char>>::empty(),
        },
{
    let ls = m.0@;
    assert(ls.drop_last() =~= Seq::<Line>::empty());
    assert(lines_normal_form(ls.drop_last(), f) =~= Seq::<Line>::empty());
    assert(ls.last() == ls[0]);
    let n = lines_normal_form(ls, f);
    match crate::normalize::line_normal_form(ls[0], f) {
        Some(l) => {
            assert(n =~= seq![l]);
            assert(n.drop_last() =~= Seq::<Line>::empty());
            assert(n.last() == l);
            assert(nested_types(n.drop_last()) =~= Seq::<Seq<char>>::empty());
        },
        None => {
            assert(n =~= Seq::<Line>::empty());
        },
    }
}

/// The data type signature of a type with one nested type: a hasher that reports the type's
/// DSDL signature, fed the nested type's data type signature and then that DSDL signature (as
/// `CRC64WE::extend` feeds them), reports it.
pub proof fn law_one_nested_signature(files: Seq<File>, name: Seq<char>, fuel: nat, nested: Seq<char>, v: u64)
    requires
        file_index(files, name) matches Some(i) && definition_nested_types(
            files[i].definition,
            files[i].name,
        ) == seq![nested],
        data_type_sig(files, nested, fuel) == Some(v),
    ensures
        data_type_sig(files, name, fuel + 1) == Some(
            crc_output(
                crc_fold(
                    file_dsdl_signature(files[file_index(files, name)->Some_0]) ^ CRC_MASK,
                    le_bytes(v) + le_bytes(file_dsdl_signature(files[file_index(files, name)->Some_0])),
                ),
            ),
        ),
{
    let i = file_index(files, name)->Some_0;
    let d = file_dsdl_signature(files[i]);
    crate::crc::law_from_value_roundtrip(d);
    let names = seq![nested];
    assert(names.drop_last() =~= Seq::<Seq<char>>::empty());
    assert(nested_sigs(files, names.drop_last(), fuel) == Some(Seq::<u64>::empty()));
    assert(nested_sigs(files, names, fuel) == Some(seq![v]));
    let one = seq![v];
    assert(one.drop_last() =~= Seq::<u64>::empty());
    assert(one.last() == v);
    assert(extend_all(d ^ CRC_MASK, one.drop_last()) == d ^ CRC_MASK);
    assert(extend_all(d ^ CRC_MASK, one) == extend_register(d ^ CRC_MASK, v));
}

} // verus!

//! The XML document of a run, written element by element.

use crate::content::{classification, decodable, read_file_contents, FileType};
use crate::error::Error;
use crate::escape::{
    all_xml_chars, escaped_attribute, escaped_text, lemma_concat_is_xml,
    lemma_escaped_attribute_is_xml, lemma_escaped_text_is_xml, safe_text, xml_safe,
};
use vstd::prelude::*;
use vstd::string::StringExecFns;
use vstd::utf8::{decode_utf8, encode_utf8, valid_utf8};

verus! {

#[verifier::external_type_specification]
#[verifier::external_body]
pub struct ExFromUtf8Error(std::string::FromUtf8Error);

/// One attribute as it is written inside a tag: a space, the key, and the
/// escaped value between double quotes.
pub open spec fn attribute_text(key: Seq<char>, value: Seq<char>) -> Seq<char> {
    seq![' '] + key + seq!['=', '"'] + escaped_attribute(value) + seq!['"']
}

/// The attributes of a tag as they are written, in order.
pub open spec fn attributes_text(attributes: Seq<(Seq<char>, Seq<char>)>) -> Seq<char>
    decreases attributes.len(),
{
    if attributes.len() == 0 {
        Seq::empty()
    } else {
        attributes_text(attributes.drop_last()) + attribute_text(
            attributes.last().0,
            attributes.last().1,
        )
    }
}

/// The XML declaration with a version and an encoding.
pub open spec fn declaration(version: Seq<char>, encoding: Seq<char>) -> Seq<char> {
    "<?xml version=\""@ + version + "\" encoding=\""@ + encoding + "\"?>"@
}

/// The tag that opens an element.
pub open spec fn start_tag(name: Seq<char>, attributes: Seq<(Seq<char>, Seq<char>)>) -> Seq<
    char,
> {
    seq!['<'] + name + attributes_text(attributes) + seq!['>']
}

/// The tag of an element without content.
pub open spec fn empty_tag(name: Seq<char>, attributes: Seq<(Seq<char>, Seq<char>)>) -> Seq<
    char,
> {
    seq!['<'] + name + attributes_text(attributes) + seq!['/', '>']
}

/// The tag that closes an element.
pub open spec fn end_tag(name: Seq<char>) -> Seq<char> {
    seq!['<', '/'] + name + seq!['>']
}

/// Writes an XML declaration with `quick_xml::Writer::write_event`, given
/// `Event::Decl` of `BytesDecl::new` with this version and encoding and no
/// standalone flag. The declaration is appended to `out` with nothing
/// escaped.
///
/// Here and in the four functions below, the writer is a plain one without
/// indentation, and the only failure that `write_event` knows is one of its
/// sink. The sink is a `Vec<u8>`, to which writing is appending, so the call
/// succeeds; the result is handed on as it is, a failure as its message.
#[verifier::external_body]
fn write_declaration(out: &mut Vec<u8>, version: &str, encoding: &str) -> (written: Result<
    (),
    String,
>)
    ensures
        written is Ok,
        final(out)@ == old(out)@ + encode_utf8(
            declaration(version@, encoding@),
        ),
{
    let event = quick_xml::events::BytesDecl::new(version, Some(encoding), None);
    quick_xml::Writer::new(out).write_event(quick_xml::events::Event::Decl(event)).map_err(
        |cause| cause.to_string(),
    )
}

/// Writes a start tag with `quick_xml::Writer::write_event`, given
/// `Event::Start` of `BytesStart::new(name)` with these attributes. The tag
/// is appended to `out`, each attribute value escaped.
#[verifier::external_body]
fn write_start(out: &mut Vec<u8>, name: &str, attributes: &Vec<(String, String)>) -> (written:
    Result<(), String>)
    ensures
        written is Ok,
        final(out)@ == old(out)@ + encode_utf8(
            start_tag(name@, attributes.deep_view()),
        ),
{
    let event = quick_xml::events::BytesStart::new(name).with_attributes(
        attributes.iter().map(|pair| (pair.0.as_str(), pair.1.as_str())),
    );
    quick_xml::Writer::new(out).write_event(quick_xml::events::Event::Start(event)).map_err(
        |cause| cause.to_string(),
    )
}

/// Writes an empty-element tag with `quick_xml::Writer::write_event`, given
/// `Event::Empty` of `BytesStart::new(name)` with these attributes. The tag
/// is appended to `out`, each attribute value escaped.
#[verifier::external_body]
fn write_empty(out: &mut Vec<u8>, name: &str, attributes: &Vec<(String, String)>) -> (written:
    Result<(), String>)
    ensures
        written is Ok,
        final(out)@ == old(out)@ + encode_utf8(
            empty_tag(name@, attributes.deep_view()),
        ),
{
    let event = quick_xml::events::BytesStart::new(name).with_attributes(
        attributes.iter().map(|pair| (pair.0.as_str(), pair.1.as_str())),
    );
    quick_xml::Writer::new(out).write_event(quick_xml::events::Event::Empty(event)).map_err(
        |cause| cause.to_string(),
    )
}

/// Writes a text node with `quick_xml::Writer::write_event`, given
/// `Event::Text` of `BytesText::new(content)`. The escaped content is
/// appended to `out`.
#[verifier::external_body]
fn write_text(out: &mut Vec<u8>, content: &str) -> (written: Result<(), String>)
    ensures
        written is Ok,
        final(out)@ == old(out)@ + encode_utf8(escaped_text(content@)),
{
    let event = quick_xml::events::BytesText::new(content);
    quick_xml::Writer::new(out).write_event(quick_xml::events::Event::Text(event)).map_err(
        |cause| cause.to_string(),
    )
}

/// Writes an end tag with `quick_xml::Writer::write_event`, given
/// `Event::End` of `BytesEnd::new(name)`. The tag is appended to `out`.
#[verifier::external_body]
fn write_end(out: &mut Vec<u8>, name: &str) -> (written: Result<(), String>)
    ensures
        written is Ok,
        final(out)@ == old(out)@ + encode_utf8(end_tag(name@)),
{
    let event = quick_xml::events::BytesEnd::new(name);
    quick_xml::Writer::new(out).write_event(quick_xml::events::Event::End(event)).map_err(
        |cause| cause.to_string(),
    )
}

/// `String::from_utf8` succeeds exactly on well-formed UTF-8 and then gives
/// the text that the bytes encode.
pub assume_specification[ String::from_utf8 ](vec: Vec<u8>) -> (text: Result<
    String,
    std::string::FromUtf8Error,
>)
    ensures
        text is Ok <==> valid_utf8(vec@),
        text matches Ok(s) ==> s@ == decode_utf8(vec@),
;

/// What the document says of one file: its path, and its text unless it is
/// binary.
pub type Record = (Seq<char>, Option<Seq<char>>);

/// The element of one file. A binary file is an empty element marked
/// `binary="true"`; a text file holds its escaped content. In the path and
/// in the content, a character that a document may not hold is replaced by
/// U+FFFD before anything is escaped.
pub open spec fn file_element(path: Seq<char>, text: Option<Seq<char>>) -> Seq<char> {
    match text {
        None => empty_tag("file"@, seq![("path"@, safe_text(path)), ("binary"@, "true"@)]),
        Some(content) => start_tag("file"@, seq![("path"@, safe_text(path))]) + escaped_text(
            safe_text(content),
        ) + end_tag("file"@),
    }
}

/// The elements of the files, in order.
pub open spec fn file_elements(records: Seq<Record>) -> Seq<char>
    decreases records.len(),
{
    if records.len() == 0 {
        Seq::empty()
    } else {
        file_elements(records.drop_last()) + file_element(records.last().0, records.last().1)
    }
}

/// The declaration and the opening tag of the root element.
pub open spec fn document_head() -> Seq<char> {
    declaration("1.0"@, "UTF-8"@) + start_tag("repository"@, Seq::empty())
}

/// The whole document: the head, one element for each file, and the closing
/// tag of the root element.
pub open spec fn document(records: Seq<Record>) -> Seq<char> {
    document_head() + file_elements(records) + end_tag("repository"@)
}

/// The markup itself is made of characters that a document may hold.
pub proof fn lemma_markup_is_xml()
    ensures
        all_xml_chars("<?xml version=\""@),
        all_xml_chars("\" encoding=\""@),
        all_xml_chars("\"?>"@),
        all_xml_chars("1.0"@),
        all_xml_chars("UTF-8"@),
        all_xml_chars("repository"@),
        all_xml_chars("file"@),
        all_xml_chars("path"@),
        all_xml_chars("binary"@),
        all_xml_chars("true"@),
{
    reveal_strlit("<?xml version=\"");
    reveal_strlit("\" encoding=\"");
    reveal_strlit("\"?>");
    reveal_strlit("1.0");
    reveal_strlit("UTF-8");
    reveal_strlit("repository");
    reveal_strlit("file");
    reveal_strlit("path");
    reveal_strlit("binary");
    reveal_strlit("true");
    assert("<?xml version=\""@ =~= seq![
        '<', '?', 'x', 'm', 'l', ' ', 'v', 'e', 'r', 's', 'i', 'o', 'n', '=', '"',
    ]);
    assert("\" encoding=\""@ =~= seq!['"', ' ', 'e', 'n', 'c', 'o', 'd', 'i', 'n', 'g', '=', '"']);
    assert("\"?>"@ =~= seq!['"', '?', '>']);
    assert("1.0"@ =~= seq!['1', '.', '0']);
    assert("UTF-8"@ =~= seq!['U', 'T', 'F', '-', '8']);
    assert("repository"@ =~= seq!['r', 'e', 'p', 'o', 's', 'i', 't', 'o', 'r', 'y']);
    assert("file"@ =~= seq!['f', 'i', 'l', 'e']);
    assert("path"@ =~= seq!['p', 'a', 't', 'h']);
    assert("binary"@ =~= seq!['b', 'i', 'n', 'a', 'r', 'y']);
    assert("true"@ =~= seq!['t', 'r', 'u', 'e']);
}

/// An attribute is made of characters that a document may hold, where its
/// key and its value are.
pub proof fn lemma_attribute_is_xml(key: Seq<char>, value: Seq<char>)
    requires
        all_xml_chars(key),
        all_xml_chars(value),
    ensures
        all_xml_chars(attribute_text(key, value)),
{
    lemma_escaped_attribute_is_xml(value);
}

/// The element of a file is made of characters that a document may hold,
/// whatever the path and the content of the file.
pub proof fn lemma_file_element_is_xml(path: Seq<char>, text: Option<Seq<char>>)
    ensures
        all_xml_chars(file_element(path, text)),
{
    lemma_markup_is_xml();
    lemma_attribute_is_xml("path"@, safe_text(path));
    lemma_attribute_is_xml("binary"@, "true"@);
    let one = seq![("path"@, safe_text(path))];
    let two = seq![("path"@, safe_text(path)), ("binary"@, "true"@)];
    assert(one.drop_last() =~= Seq::<(Seq<char>, Seq<char>)>::empty());
    assert(two.drop_last() =~= one);
    assert(attributes_text(one.drop_last()) =~= Seq::<char>::empty());
    assert(one.last() == ("path"@, safe_text(path)));
    assert(two.last() == ("binary"@, "true"@));
    assert(attributes_text(one) =~= attribute_text("path"@, safe_text(path)));
    assert(attributes_text(two) =~= attributes_text(one) + attribute_text("binary"@, "true"@));
    match text {
        None => {},
        Some(content) => {
            lemma_escaped_text_is_xml(safe_text(content));
            lemma_concat_is_xml(start_tag("file"@, one), escaped_text(safe_text(content)));
        },
    }
}

/// The elements of any files are made of characters that a document may
/// hold.
pub proof fn lemma_file_elements_are_xml(records: Seq<Record>)
    ensures
        all_xml_chars(file_elements(records)),
    decreases records.len(),
{
    if records.len() > 0 {
        lemma_file_elements_are_xml(records.drop_last());
        lemma_file_element_is_xml(records.last().0, records.last().1);
        lemma_concat_is_xml(
            file_elements(records.drop_last()),
            file_element(records.last().0, records.last().1),
        );
    }
}

/// No document holds a character that XML does not allow, whatever the
/// paths and the contents of the files.
pub proof fn lemma_document_is_xml(records: Seq<Record>)
    ensures
        all_xml_chars(document(records)),
{
    lemma_markup_is_xml();
    lemma_file_elements_are_xml(records);
    assert(attributes_text(Seq::empty()) =~= Seq::<char>::empty());
    assert(all_xml_chars(declaration("1.0"@, "UTF-8"@)));
    assert(all_xml_chars(start_tag("repository"@, Seq::empty())));
    assert(all_xml_chars(end_tag("repository"@)));
    lemma_concat_is_xml(declaration("1.0"@, "UTF-8"@), start_tag("repository"@, Seq::empty()));
    lemma_concat_is_xml(document_head(), file_elements(records));
    lemma_concat_is_xml(document_head() + file_elements(records), end_tag("repository"@));
}

/// Encoding a concatenation is concatenating the encodings.
pub proof fn lemma_encode_concat(a: Seq<char>, b: Seq<char>)
    ensures
        encode_utf8(a + b) == encode_utf8(a) + encode_utf8(b),
    decreases a.len(),
{
    if a.len() == 0 {
        assert(a + b =~= b);
        assert(encode_utf8(a) + encode_utf8(b) =~= encode_utf8(b));
    } else {
        lemma_encode_concat(a.drop_first(), b);
        assert((a + b).drop_first() =~= a.drop_first() + b);
        assert((a + b)[0] == a[0]);
        assert(encode_utf8(a + b) =~= encode_utf8(a) + encode_utf8(b));
    }
}

/// A document in the making: the head has been written, and one element for
/// each file pushed so far.
pub struct XmlDocument {
    buffer: Vec<u8>,
    records: Ghost<Seq<Record>>,
}

impl XmlDocument {
    /// The files pushed so far.
    pub closed spec fn records(&self) -> Seq<Record> {
        self.records@
    }

    /// The text written so far.
    pub open spec fn text(&self) -> Seq<char> {
        document_head() + file_elements(self.records())
    }

    /// The buffer holds exactly the text written so far.
    pub closed spec fn wf(&self) -> bool {
        self.buffer@ == encode_utf8(self.text())
    }

    /// Starts a document: writes the declaration and opens the root element.
    pub fn begin() -> (started: Result<XmlDocument, Error>)
        ensures
            started matches Ok(document) && document.wf() && document.records() == Seq::<
                Record,
            >::empty(),
    {
        let mut buffer: Vec<u8> = Vec::new();
        match write_declaration(&mut buffer, "1.0", "UTF-8") {
            Ok(_) => {},
            Err(cause) => {
                return Err(Error::Io(cause));
            },
        }
        let attributes: Vec<(String, String)> = Vec::new();
        match write_start(&mut buffer, "repository", &attributes) {
            Ok(_) => {},
            Err(cause) => {
                return Err(Error::Io(cause));
            },
        }
        proof {
            assert(attributes.deep_view() =~= Seq::empty());
            lemma_encode_concat(
                declaration("1.0"@, "UTF-8"@),
                start_tag("repository"@, Seq::empty()),
            );
            assert(buffer@ =~= encode_utf8(document_head()));
            assert(document_head() + file_elements(Seq::<Record>::empty()) =~= document_head());
        }
        Ok(XmlDocument { buffer, records: Ghost(Seq::empty()) })
    }

    /// Appends the element of one file. Whatever the path and the content
    /// hold, the element is made of characters that a document may hold:
    /// any other character is replaced by U+FFFD before it is written.
    pub fn push_file(&mut self, path: &str, kind: &FileType) -> (pushed: Result<(), Error>)
        requires
            old(self).wf(),
        ensures
            pushed is Ok,
            final(self).wf(),
            final(self).records() == old(self).records().push((path@, kind.text())),
    {
        let ghost before = self.text();
        let ghost record: Record = (path@, kind.text());
        let mut attributes: Vec<(String, String)> = Vec::new();
        attributes.push((String::from_str("path"), xml_safe(path)));
        match kind {
            FileType::Binary => {
                attributes.push((String::from_str("binary"), String::from_str("true")));
                assert(attributes.deep_view() =~= seq![
                    ("path"@, safe_text(path@)),
                    ("binary"@, "true"@),
                ]);
                match write_empty(&mut self.buffer, "file", &attributes) {
                    Ok(_) => {},
                    Err(cause) => {
                        return Err(Error::Io(cause));
                    },
                }
                proof {
                    lemma_encode_concat(before, file_element(record.0, record.1));
                }
            },
            FileType::Text(content) => {
                assert(attributes.deep_view() =~= seq![("path"@, safe_text(path@))]);
                let ghost opened = start_tag("file"@, seq![("path"@, safe_text(path@))]);
                let ghost body = escaped_text(safe_text(content@));
                let ghost closed = end_tag("file"@);
                let safe_content = xml_safe(content.as_str());
                match write_start(&mut self.buffer, "file", &attributes) {
                    Ok(_) => {},
                    Err(cause) => {
                        return Err(Error::Io(cause));
                    },
                }
                match write_text(&mut self.buffer, safe_content.as_str()) {
                    Ok(_) => {},
                    Err(cause) => {
                        return Err(Error::Io(cause));
                    },
                }
                match write_end(&mut self.buffer, "file") {
                    Ok(_) => {},
                    Err(cause) => {
                        return Err(Error::Io(cause));
                    },
                }
                proof {
                    lemma_encode_concat(before, opened);
                    lemma_encode_concat(before + opened, body);
                    lemma_encode_concat(before + opened + body, closed);
                    assert(before + opened + body + closed =~= before + (opened + body + closed));
                }
            },
        }
        proof {
            let after = self.records@.push(record);
            assert(after.drop_last() =~= self.records@);
            assert(after.last() == record);
            assert(document_head() + file_elements(after) =~= before + file_element(
                record.0,
                record.1,
            ));
        }
        self.records = Ghost(self.records@.push(record));
        Ok(())
    }

    /// Appends the element of one file as it was read, classified by its
    /// bytes. A file that could not be read is an error that carries the
    /// message of the failure, and leaves the document as it was.
    pub fn push_source(&mut self, source: &FileSource) -> (pushed: Result<(), Error>)
        requires
            old(self).wf(),
            source.content matches Ok(bytes) ==> decodable(bytes@.len()),
        ensures
            final(self).wf(),
            match source.content {
                Ok(_) => pushed is Ok && final(self).records() == old(self).records().push(
                    record_of(*source),
                ),
                Err(cause) => {
                    &&& pushed == Err::<(), Error>(Error::Io(cause))
                    &&& final(self).records() == old(self).records()
                },
            },
    {
        match &source.content {
            Ok(bytes) => {
                let kind = read_file_contents(bytes.as_slice());
                self.push_file(source.path.as_str(), &kind)
            },
            Err(cause) => Err(Error::Io(cause.clone())),
        }
    }

    /// Closes the root element and hands out the document as text.
    pub fn finish(self) -> (finished: Result<String, Error>)
        requires
            self.wf(),
        ensures
            finished matches Ok(xml) && xml@ == document(self.records()) && all_xml_chars(xml@),
    {
        let mut buffer = self.buffer;
        match write_end(&mut buffer, "repository") {
            Ok(_) => {},
            Err(cause) => {
                return Err(Error::Io(cause));
            },
        }
        proof {
            lemma_document_is_xml(self.records());
            lemma_encode_concat(self.text(), end_tag("repository"@));
            vstd::utf8::encode_utf8_valid_utf8(document(self.records()));
            vstd::utf8::encode_utf8_decode_utf8(document(self.records()));
        }
        match String::from_utf8(buffer) {
            Ok(xml) => Ok(xml),
            Err(cause) => Err(Error::Path(cause.to_string())),
        }
    }
}

/// One file of a run as it was read: its relative path, and its bytes or
/// the message of the failure to read it.
#[derive(Debug, PartialEq, Eq)]
pub struct FileSource {
    pub path: String,
    pub content: Result<Vec<u8>, String>,
}

/// What the document says of a file that was read.
pub open spec fn record_of(source: FileSource) -> Record {
    (
        source.path@,
        match source.content {
            Ok(bytes) => classification(bytes@),
            Err(_) => None,
        },
    )
}

/// What the document says of each file, in order.
pub open spec fn records_of(files: Seq<FileSource>) -> Seq<Record> {
    Seq::new(files.len(), |i: int| record_of(files[i]))
}

/// The message of the first of the first `n` files that could not be
/// read; `None` where all of them could.
pub open spec fn first_failure(files: Seq<FileSource>, n: int) -> Option<Seq<char>>
    decreases n,
{
    if n <= 0 {
        None
    } else {
        match first_failure(files, n - 1) {
            Some(cause) => Some(cause),
            None => match files[n - 1].content {
                Ok(_) => None,
                Err(cause) => Some(cause@),
            },
        }
    }
}

/// Once a file could not be read, the files after it change nothing.
pub proof fn lemma_first_failure_lasts(files: Seq<FileSource>, n: int, m: int)
    requires
        0 <= n <= m,
        first_failure(files, n) is Some,
    ensures
        first_failure(files, m) == first_failure(files, n),
    decreases m - n,
{
    if n < m {
        lemma_first_failure_lasts(files, n, m - 1);
    }
}

/// Whether every file that was read is small enough to be decoded.
pub open spec fn all_decodable(files: Seq<FileSource>) -> bool {
    forall|i: int|
        0 <= i < files.len() ==> ((#[trigger] files[i]).content matches Ok(bytes) ==> decodable(
            bytes@.len(),
        ))
}

/// Whether two files were read alike: the same path, and the same bytes or
/// a failure both times.
pub open spec fn read_alike(first: FileSource, second: FileSource) -> bool {
    &&& first.path@ == second.path@
    &&& match (first.content, second.content) {
        (Ok(bytes), Ok(other)) => bytes@ == other@,
        (Err(_), Err(_)) => true,
        _ => false,
    }
}

/// The document depends on nothing but the paths and the bytes of the
/// files: two runs that read the same write the same.
pub proof fn lemma_same_files_same_document(first: Seq<FileSource>, second: Seq<FileSource>)
    requires
        first.len() == second.len(),
        forall|i: int| 0 <= i < first.len() ==> read_alike(#[trigger] first[i], second[i]),
    ensures
        document(records_of(first)) == document(records_of(second)),
{
    assert forall|i: int| 0 <= i < first.len() implies record_of(first[i]) == record_of(
        second[i],
    ) by {
        assert(read_alike(first[i], second[i]));
    }
    assert(records_of(first) =~= records_of(second));
}

/// Builds the document of a run: one element per file, in the given order,
/// each file classified by its bytes. The first file that could not be read
/// fails the whole run, with the message of that failure.
pub fn build_document(files: &Vec<FileSource>) -> (built: Result<String, Error>)
    requires
        all_decodable(files@),
    ensures
        match built {
            Ok(xml) => {
                &&& first_failure(files@, files.len() as int) is None
                &&& xml@ == document(records_of(files@))
                &&& all_xml_chars(xml@)
            },
            Err(error) => error matches Error::Io(cause) && first_failure(
                files@,
                files.len() as int,
            ) == Some(cause@),
        },
{
    let mut document = match XmlDocument::begin() {
        Ok(document) => document,
        Err(error) => {
            return Err(error);
        },
    };
    let mut i: usize = 0;
    assert(records_of(files@.take(0)) =~= Seq::<Record>::empty());
    while i < files.len()
        invariant
            i <= files.len(),
            all_decodable(files@),
            document.wf(),
            document.records() == records_of(files@.take(i as int)),
            first_failure(files@, i as int) is None,
        decreases files.len() - i,
    {
        match document.push_source(&files[i]) {
            Ok(_) => {},
            Err(error) => {
                proof {
                    lemma_first_failure_lasts(files@, i + 1, files.len() as int);
                }
                return Err(error);
            },
        }
        proof {
            let next = files@.take(i + 1);
            assert(next.drop_last() =~= files@.take(i as int));
            assert(records_of(next) =~= records_of(files@.take(i as int)).push(
                record_of(files@[i as int]),
            ));
        }
        i += 1;
    }
    assert(files@.take(i as int) =~= files@);
    document.finish()
}

} // verus!

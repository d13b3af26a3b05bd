//! Headers whose values are read from files.
use tonic::metadata::MetadataMap;
use vstd::prelude::*;
use vstd::utf8::encode_utf8;

use crate::metadata::{
    contents, is_ascii_key, is_ascii_value, is_token_char, metadata_new, metadata_try_insert,
    parse_ascii_key, parse_ascii_value, HeaderValues, ValueView, MAX_HEADER_NAMES,
};
use crate::path::{lossy_text, FilePath};
use crate::status::{plain_status, Code, Status, StatusView};
use crate::text::{ascii_lower, ascii_lowered, trim_end, trimmed_end};

verus! {

/// A header and the file that holds its value.
#[derive(Debug)]
pub struct RemoteHeaderFile {
    pub key: String,
    pub path: FilePath,
}

pub struct HeaderFileView {
    pub key: Seq<char>,
    pub path: Seq<u8>,
}

impl View for RemoteHeaderFile {
    type V = HeaderFileView;

    open spec fn view(&self) -> HeaderFileView {
        HeaderFileView { key: self.key@, path: self.path@ }
    }
}

/// Headers whose values are read from files, at most one file for each header.
#[derive(Debug)]
pub struct RemoteHeaderFiles {
    entries: Vec<RemoteHeaderFile>,
}

/// A key that is the name of a header: it is in lower case.
pub open spec fn is_header_name(key: Seq<char>) -> bool {
    is_ascii_key(key) && ascii_lowered(key) == key
}

/// Names of headers, none of which occurs twice.
pub open spec fn are_header_files(entries: Seq<HeaderFileView>) -> bool {
    &&& forall|i: int| 0 <= i < entries.len() ==> is_header_name((#[trigger] entries[i]).key)
    &&& forall|i: int, j: int|
        0 <= i < j < entries.len() ==> (#[trigger] entries[i]).key != (#[trigger] entries[j]).key
}

impl View for RemoteHeaderFiles {
    type V = Seq<HeaderFileView>;

    closed spec fn view(&self) -> Seq<HeaderFileView> {
        self.entries@.map_values(|e: RemoteHeaderFile| e@)
    }
}

/// `entries` with the file of one header set: the one that it has is replaced.
pub open spec fn with_header_file(entries: Seq<HeaderFileView>, entry: HeaderFileView) -> Seq<
    HeaderFileView,
> {
    let i = header_file_position(entries, entry.key, 0);
    if 0 <= i < entries.len() {
        entries.update(i, entry)
    } else {
        entries.push(entry)
    }
}

/// The position of the entry of `key` at or after `from`, or the number of entries.
pub open spec fn header_file_position(
    entries: Seq<HeaderFileView>,
    key: Seq<char>,
    from: int,
) -> int
    decreases entries.len() - from,
{
    if from < 0 || from >= entries.len() {
        entries.len() as int
    } else if entries[from].key == key {
        from
    } else {
        header_file_position(entries, key, from + 1)
    }
}

proof fn lemma_header_file_position(
    entries: Seq<HeaderFileView>,
    key: Seq<char>,
    from: int,
    i: int,
)
    requires
        0 <= from <= i <= entries.len(),
        forall|j: int| from <= j < i ==> (#[trigger] entries[j]).key != key,
        i < entries.len() ==> entries[i].key == key,
    ensures
        header_file_position(entries, key, from) == i,
    decreases i - from,
{
    if from < i {
        lemma_header_file_position(entries, key, from + 1, i);
    }
}

/// Lower case stays as it is.
proof fn lemma_lowered_twice(s: Seq<char>)
    ensures
        ascii_lowered(ascii_lowered(s)) == ascii_lowered(s),
{
    assert forall|i: int| 0 <= i < s.len() implies ascii_lowered(ascii_lowered(s))[i]
        == ascii_lowered(s)[i] by {
        assert(ascii_lower(ascii_lower(s[i])) == ascii_lower(s[i]));
    }
    assert(ascii_lowered(ascii_lowered(s)) =~= ascii_lowered(s));
}

/// A key in lower case is a key as well.
proof fn lemma_lowered_key(key: Seq<char>)
    requires
        is_ascii_key(key),
    ensures
        is_header_name(ascii_lowered(key)),
{
    lemma_lowered_twice(key);
    let low = ascii_lowered(key);
    assert forall|i: int| 0 <= i < low.len() implies is_token_char(
        #[trigger] low[i],
    ) by {
        assert(is_token_char(key[i]));
    }
}

impl RemoteHeaderFiles {
    #[verifier::type_invariant]
    spec fn inv(self) -> bool {
        are_header_files(self.entries@.map_values(|e: RemoteHeaderFile| e@))
    }

    /// No headers.
    pub fn new() -> (r: Self)
        ensures
            r@ == Seq::<HeaderFileView>::empty(),
    {
        let r = RemoteHeaderFiles { entries: Vec::new() };
        assert(r@ =~= Seq::<HeaderFileView>::empty());
        r
    }

    /// The names are those of headers, and no name occurs twice.
    pub fn entries(&self) -> (r: &Vec<RemoteHeaderFile>)
        ensures
            r@.map_values(|e: RemoteHeaderFile| e@) == self@,
            are_header_files(self@),
    {
        proof {
            use_type_invariant(self);
        }
        &self.entries
    }

    /// Sets the file of a header. Fails, and changes nothing, if the key is not that of an ASCII
    /// header.
    pub fn insert(&mut self, key: &str, path: FilePath) -> (r: bool)
        ensures
            r == is_ascii_key(key@),
            final(self)@ == if is_ascii_key(key@) {
                with_header_file(
                    old(self)@,
                    HeaderFileView { key: ascii_lowered(key@), path: path@ },
                )
            } else {
                old(self)@
            },
    {
        proof {
            use_type_invariant(&*self);
        }
        let ghost before = self@;
        let ghost name = ascii_lowered(key@);
        let entry = match parse_ascii_key(key) {
            Ok(key) => RemoteHeaderFile { key, path },
            Err(_) => {
                return false;
            },
        };
        proof {
            lemma_lowered_key(key@);
        }
        let mut entries: Vec<RemoteHeaderFile> = Vec::new();
        std::mem::swap(&mut entries, &mut self.entries);
        let mut i: usize = 0;
        while i < entries.len() && entries[i].key != entry.key
            invariant
                i <= entries@.len(),
                entry.key@ == name,
                before == entries@.map_values(|e: RemoteHeaderFile| e@),
                forall|j: int| 0 <= j < i ==> (#[trigger] before[j]).key != name,
            decreases entries@.len() - i,
        {
            assert(before[i as int].key == entries@[i as int].key@);
            i = i + 1;
        }
        proof {
            if i < entries@.len() {
                assert(before[i as int].key == entries@[i as int].key@);
            }
            lemma_header_file_position(before, name, 0, i as int);
        }
        let ghost added = entry@;
        if i < entries.len() {
            entries.set(i, entry);
            assert(entries@.map_values(|e: RemoteHeaderFile| e@) =~= before.update(
                i as int,
                added,
            ));
        } else {
            entries.push(entry);
            assert(entries@.map_values(|e: RemoteHeaderFile| e@) =~= before.push(added));
        }
        self.entries = entries;
        true
    }
}

impl Clone for RemoteHeaderFiles {
    fn clone(&self) -> (r: Self)
        ensures
            r@ == self@,
    {
        proof {
            use_type_invariant(self);
        }
        let mut entries: Vec<RemoteHeaderFile> = Vec::new();
        let mut i: usize = 0;
        while i < self.entries.len()
            invariant
                i <= self.entries@.len(),
                entries@.len() == i,
                forall|j: int| 0 <= j < i ==> (#[trigger] entries@[j])@ == self.entries@[j]@,
            decreases self.entries@.len() - i,
        {
            let entry = &self.entries[i];
            entries.push(RemoteHeaderFile { key: entry.key.clone(), path: entry.path.clone() });
            i = i + 1;
        }
        assert(entries@.map_values(|e: RemoteHeaderFile| e@) =~= self@);
        RemoteHeaderFiles { entries }
    }
}

/// What reading a file gave: its text, or the words for what went wrong.
#[derive(Debug)]
pub enum FileRead {
    Text(String),
    Failed(String),
}

#[verifier::ext_equal]
pub enum FileReadView {
    Text(Seq<char>),
    Failed(Seq<char>),
}

impl View for FileRead {
    type V = FileReadView;

    open spec fn view(&self) -> FileReadView {
        match self {
            FileRead::Text(text) => FileReadView::Text(text@),
            FileRead::Failed(error) => FileReadView::Failed(error@),
        }
    }
}

/// The views of what reading several files gave.
pub open spec fn reads_view(reads: Seq<FileRead>) -> Seq<FileReadView> {
    reads.map_values(|r: FileRead| r@)
}

/// What is wrong with the file of a header; none if its text, without trailing white space, is
/// the value of a header.
pub open spec fn header_file_error(
    entry: HeaderFileView,
    read: FileReadView,
    backend: Seq<char>,
) -> Option<StatusView> {
    match read {
        FileReadView::Text(text) => if is_ascii_value(trimmed_end(text)) {
            None
        } else {
            Some(
                plain_status(
                    Code::Internal,
                    "remote header from file "@ + lossy_text(entry.path) + " for backend "@
                        + backend + " has invalid value"@,
                ),
            )
        },
        FileReadView::Failed(error) => Some(
            plain_status(
                Code::Internal,
                "failed to load remote header file "@ + lossy_text(entry.path) + " for backend "@
                    + backend + ": "@ + error,
            ),
        ),
    }
}

/// The first error at or after entry `i`, if there is one.
pub open spec fn header_files_error(
    entries: Seq<HeaderFileView>,
    reads: Seq<FileReadView>,
    backend: Seq<char>,
    i: int,
) -> Option<StatusView>
    decreases entries.len() - i,
{
    if i < 0 || i >= entries.len() {
        None
    } else {
        let error = header_file_error(entries[i], reads[i], backend);
        if error is Some {
            error
        } else {
            header_files_error(entries, reads, backend, i + 1)
        }
    }
}

/// The headers of the first `n` entries: the text of each file, without trailing white space,
/// which is kept out of logs.
pub open spec fn header_file_values(
    entries: Seq<HeaderFileView>,
    reads: Seq<FileReadView>,
    n: int,
) -> HeaderValues
    decreases n,
{
    if n <= 0 {
        Map::empty()
    } else {
        header_file_values(entries, reads, n - 1).insert(
            entries[n - 1].key,
            seq![
                ValueView {
                    bytes: encode_utf8(trimmed_end(reads[n - 1]->Text_0)),
                    sensitive: true,
                },
            ],
        )
    }
}

/// The headers of `n` entries have at most `n` names.
proof fn lemma_header_file_values_len(
    entries: Seq<HeaderFileView>,
    reads: Seq<FileReadView>,
    n: int,
)
    requires
        0 <= n,
    ensures
        header_file_values(entries, reads, n).dom().finite(),
        header_file_values(entries, reads, n).dom().len() <= n,
    decreases n,
{
    if n > 0 {
        lemma_header_file_values_len(entries, reads, n - 1);
        assert(header_file_values(entries, reads, n).dom() =~= header_file_values(
            entries,
            reads,
            n - 1,
        ).dom().insert(entries[n - 1].key));
    }
}

/// What is said where the headers of a backend's files are more than a map takes.
pub open spec fn too_many_header_files(backend: Seq<char>) -> StatusView {
    plain_status(Code::Internal, "too many remote header files for backend "@ + backend)
}

/// The headers of the entries before some entry have more than [`MAX_HEADER_NAMES`] names, and no
/// entry up to that one is in error: a map may refuse the header of that entry.
pub open spec fn header_files_overflow(
    entries: Seq<HeaderFileView>,
    reads: Seq<FileReadView>,
    backend: Seq<char>,
) -> bool {
    exists|n: int|
        {
            &&& 0 <= n < entries.len()
            &&& #[trigger] header_file_values(entries, reads, n).dom().len() > MAX_HEADER_NAMES
            &&& forall|j: int|
                0 <= j <= n ==> #[trigger] header_file_error(entries[j], reads[j], backend) is None
        }
}

/// Up to [`MAX_HEADER_NAMES`] files never make more headers than a map takes.
pub proof fn law_few_header_files_fit(
    entries: Seq<HeaderFileView>,
    reads: Seq<FileReadView>,
    backend: Seq<char>,
)
    requires
        entries.len() <= MAX_HEADER_NAMES,
    ensures
        !header_files_overflow(entries, reads, backend),
{
    assert forall|n: int| 0 <= n < entries.len() implies #[trigger] header_file_values(
        entries,
        reads,
        n,
    ).dom().len() <= MAX_HEADER_NAMES by {
        lemma_header_file_values_len(entries, reads, n);
    }
}

/// Makes headers of files that were read, in the order of the entries. The first file that could
/// not be read, or whose text is not the value of a header, is reported; so is a header that the
/// map refuses.
pub fn load_remote_header_files(
    files: &RemoteHeaderFiles,
    reads: &Vec<FileRead>,
    backend_name: &str,
) -> (r: Result<MetadataMap, Status>)
    requires
        reads@.len() == files@.len(),
    ensures
        r matches Ok(metadata) ==> header_files_error(
            files@,
            reads_view(reads@),
            backend_name@,
            0,
        ) is None && contents(metadata) == header_file_values(
            files@,
            reads_view(reads@),
            files@.len() as int,
        ),
        r matches Err(status) ==> {
            ||| header_files_error(files@, reads_view(reads@), backend_name@, 0) == Some(status@)
            ||| status@ == too_many_header_files(backend_name@) && header_files_overflow(
                files@,
                reads_view(reads@),
                backend_name@,
            )
        },
{
    let entries = files.entries();
    let ghost views = files@;
    let ghost read_views = reads_view(reads@);
    let mut metadata = metadata_new();
    let mut i: usize = 0;
    while i < entries.len()
        invariant
            i <= entries@.len(),
            views == files@,
            views == entries@.map_values(|e: RemoteHeaderFile| e@),
            are_header_files(views),
            reads@.len() == views.len(),
            read_views == reads_view(reads@),
            contents(metadata) == header_file_values(views, read_views, i as int),
            forall|j: int|
                0 <= j < i ==> #[trigger] header_file_error(
                    views[j],
                    read_views[j],
                    backend_name@,
                ) is None,
            header_files_error(views, read_views, backend_name@, 0) == header_files_error(
                views,
                read_views,
                backend_name@,
                i as int,
            ),
        decreases entries@.len() - i,
    {
        let entry = &entries[i];
        proof {
            assert(views[i as int] == entry@);
            assert(read_views[i as int] == reads@[i as int]@);
            assert(is_header_name(views[i as int].key));
        }
        match &reads[i] {
            FileRead::Text(text) => {
                let value = trim_end(text.as_str());
                match parse_ascii_value(value.as_str()) {
                    Ok(()) => {
                        if !metadata_try_insert(
                            &mut metadata,
                            entry.key.as_str(),
                            value.as_str(),
                            true,
                        ) {
                            let message = "too many remote header files for backend ".to_owned()
                                .concat(backend_name);
                            return Err(Status::internal(message));
                        }
                    },
                    Err(_) => {
                        let message = "remote header from file ".to_owned().concat(
                            entry.path.to_string_lossy().as_str(),
                        ).concat(" for backend ").concat(backend_name).concat(" has invalid value");
                        return Err(Status::internal(message));
                    },
                }
            },
            FileRead::Failed(error) => {
                let message = "failed to load remote header file ".to_owned().concat(
                    entry.path.to_string_lossy().as_str(),
                ).concat(" for backend ").concat(backend_name).concat(": ").concat(error.as_str());
                return Err(Status::internal(message));
            },
        }
        i = i + 1;
    }
    Ok(metadata)
}

/// Of headers from files each header and its file is seen, in order; at first there are none, and
/// a copy is the same.
pub proof fn law_header_files_are_seen(
    files: &RemoteHeaderFiles,
    entries: &Vec<RemoteHeaderFile>,
    fresh: RemoteHeaderFiles,
    copy: RemoteHeaderFiles,
    i: int,
)
    requires
        call_ensures(RemoteHeaderFiles::entries, (files,), entries),
        call_ensures(RemoteHeaderFiles::new, (), fresh),
        call_ensures(RemoteHeaderFiles::clone, (files,), copy),
    ensures
        entries@.len() == files@.len(),
        0 <= i < files@.len() ==> entries@[i]@ == files@[i],
        fresh@.len() == 0,
        copy@ == files@,
{
    let views = entries@.map_values(|e: RemoteHeaderFile| e@);
    assert(views.len() == entries@.len());
    if 0 <= i < files@.len() {
        assert(views[i] == entries@[i]@);
    }
}

} // verus!

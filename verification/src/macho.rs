//! What the debugger reads out of a Mach-O file: the address at which the
//! `__TEXT` segment was linked, and the UUID of the file.

use object::{Object, ObjectSegment};
use vstd::prelude::*;
use vstd::string::StringExecFns;
use crate::paths::{basename, basename_of};
use crate::symbols::{Image, SymbolContext};
use crate::text::{chars_of, is_word};

verus! {

/// A segment as the reader of object files gives it: its address and its
/// name, which may be missing or unreadable (then with the reader's message).
#[derive(Debug)]
pub struct RawSegment {
    pub address: u64,
    pub name: Result<Option<String>, String>,
}

/// A `RawSegment` with text as sequences of characters.
pub type SegmentView = (u64, Result<Option<Seq<char>>, Seq<char>>);

impl View for RawSegment {
    type V = SegmentView;

    open spec fn view(&self) -> SegmentView {
        (
            self.address,
            match self.name {
                Ok(Some(n)) => Ok(Some(n@)),
                Ok(None) => Ok(None),
                Err(e) => Err(e@),
            },
        )
    }
}

/// Why no symbol context could be made of a file.
#[derive(Debug)]
pub enum SymbolError {
    /// The file is no object file that can be read; with the reader's message.
    Unparsable(String),
    /// The file is an object file of another format, of this name.
    NotMachO(String),
    /// The name of a segment cannot be read; with the reader's message.
    SegmentName(String),
    /// The file has no segments.
    NoSegments,
    /// The load commands cannot be read; with the reader's message.
    LoadCommands(String),
}

/// A `SymbolError` with text as sequences of characters.
pub enum SymbolErrorView {
    Unparsable(Seq<char>),
    NotMachO(Seq<char>),
    SegmentName(Seq<char>),
    NoSegments,
    LoadCommands(Seq<char>),
}

impl View for SymbolError {
    type V = SymbolErrorView;

    open spec fn view(&self) -> SymbolErrorView {
        match self {
            SymbolError::Unparsable(m) => SymbolErrorView::Unparsable(m@),
            SymbolError::NotMachO(f) => SymbolErrorView::NotMachO(f@),
            SymbolError::SegmentName(m) => SymbolErrorView::SegmentName(m@),
            SymbolError::NoSegments => SymbolErrorView::NoSegments,
            SymbolError::LoadCommands(m) => SymbolErrorView::LoadCommands(m@),
        }
    }
}

/// What a symbol error says, as a line of text.
pub open spec fn symbol_error_text(e: SymbolErrorView) -> Seq<char> {
    match e {
        SymbolErrorView::Unparsable(m) => "failed to parse Mach-O: "@ + m,
        SymbolErrorView::NotMachO(f) => "expected Mach-O binary, found "@ + f,
        SymbolErrorView::SegmentName(m) => "failed to read segment name: "@ + m,
        SymbolErrorView::NoSegments => "no segments found"@,
        SymbolErrorView::LoadCommands(m) => "failed to read Mach-O load commands: "@ + m,
    }
}

impl SymbolError {
    /// What the error says, as a line of text.
    pub fn message(&self) -> (text: String)
        ensures
            text@ == symbol_error_text(self@),
    {
        match self {
            SymbolError::Unparsable(m) => "failed to parse Mach-O: ".to_owned().concat(m.as_str()),
            SymbolError::NotMachO(f) => "expected Mach-O binary, found ".to_owned().concat(
                f.as_str(),
            ),
            SymbolError::SegmentName(m) => "failed to read segment name: ".to_owned().concat(
                m.as_str(),
            ),
            SymbolError::NoSegments => "no segments found".to_owned(),
            SymbolError::LoadCommands(m) => "failed to read Mach-O load commands: ".to_owned().concat(
                m.as_str(),
            ),
        }
    }
}

/// What the reader of object files finds in a file: the name of its
/// format, whether it is little-endian, its segments in the order of the
/// file, and the UUID, where the file is Mach-O and has one (or the message
/// with which the load commands are refused).
#[derive(Debug)]
pub struct ObjectSummary {
    pub format: String,
    pub little_endian: bool,
    pub segments: Vec<RawSegment>,
    pub uuid: Result<Option<[u8; 16]>, String>,
}

/// An `ObjectSummary` with text as sequences of characters.
pub struct SummaryView {
    pub format: Seq<char>,
    pub little_endian: bool,
    pub segments: Seq<SegmentView>,
    pub uuid: Result<Option<[u8; 16]>, Seq<char>>,
}

impl View for ObjectSummary {
    type V = SummaryView;

    open spec fn view(&self) -> SummaryView {
        SummaryView {
            format: self.format@,
            little_endian: self.little_endian,
            segments: segments_view(self.segments@),
            uuid: told(self.uuid),
        }
    }
}

/// What the `object` crate finds in `data`: the format of the file as
/// `{:?}` writes it, what `is_little_endian` gives, each segment with its
/// address and name, and what `mach_uuid` gives; or the message with which
/// `object::File::parse` refuses `data`.
pub uninterp spec fn object_of(data: Seq<u8>) -> Result<SummaryView, Seq<char>>;

/// The views of a list of segments.
pub open spec fn segments_view(segments: Seq<RawSegment>) -> Seq<SegmentView> {
    segments.map_values(|s: RawSegment| s@)
}

/// The view of a result that carries a message.
pub open spec fn told<T>(r: Result<T, String>) -> Result<T, Seq<char>> {
    match r {
        Ok(v) => Ok(v),
        Err(m) => Err(m@),
    }
}

/// The view of the result of reading an object file.
pub open spec fn summary_view(r: Result<ObjectSummary, String>) -> Result<SummaryView, Seq<char>> {
    match r {
        Ok(s) => Ok(s@),
        Err(m) => Err(m@),
    }
}

/// `object::File::parse`, with `format`, `is_little_endian`, `segments` and
/// `mach_uuid` of the file: what the file in `data` holds, or the message of
/// the parse error.
#[verifier::external_body]
pub(crate) fn read_object(data: &[u8]) -> (summary: Result<ObjectSummary, String>)
    ensures
        summary_view(summary) == object_of(data@),
{
    let file = object::File::parse(data).map_err(|e| e.to_string())?;
    Ok(ObjectSummary {
        format: format!("{:?}", file.format()),
        little_endian: file.is_little_endian(),
        segments: file.segments().map(|s| RawSegment {
            address: s.address(),
            name: s.name().map(|n| n.map(str::to_owned)).map_err(|e| e.to_string()),
        }).collect(),
        uuid: file.mach_uuid().map_err(|e| e.to_string()),
    })
}

/// The name of the Mach-O format.
pub open spec fn mach_o() -> Seq<char> {
    "MachO"@
}

/// The address of `__TEXT` among the segments from `from` on: that of the
/// first segment named `__TEXT`, unless a segment before it has a name that
/// cannot be read; where no segment is named `__TEXT`, the address of the
/// very first segment.
pub open spec fn text_vmaddr_after(segments: Seq<SegmentView>, from: int) -> Result<
    u64,
    SymbolErrorView,
>
    decreases segments.len() - from,
{
    if segments.len() == 0 {
        Err(SymbolErrorView::NoSegments)
    } else if from < 0 || from >= segments.len() {
        Ok(segments[0].0)
    } else {
        match segments[from].1 {
            Err(message) => Err(SymbolErrorView::SegmentName(message)),
            Ok(Some(name)) if name == "__TEXT"@ => Ok(segments[from].0),
            _ => text_vmaddr_after(segments, from + 1),
        }
    }
}

/// The address at which `__TEXT` was linked, from what was read of a file:
/// the file must be Mach-O.
pub open spec fn text_vmaddr_of(object: Result<SummaryView, Seq<char>>) -> Result<
    u64,
    SymbolErrorView,
> {
    match object {
        Err(message) => Err(SymbolErrorView::Unparsable(message)),
        Ok(summary) => if summary.format == mach_o() {
            text_vmaddr_after(summary.segments, 0)
        } else {
            Err(SymbolErrorView::NotMachO(summary.format))
        },
    }
}

/// The UUID of a file, from what was read of it.
pub open spec fn uuid_of(object: Result<SummaryView, Seq<char>>) -> Result<
    Option<[u8; 16]>,
    SymbolErrorView,
> {
    match object {
        Err(message) => Err(SymbolErrorView::LoadCommands(message)),
        Ok(summary) => match summary.uuid {
            Ok(u) => Ok(u),
            Err(message) => Err(SymbolErrorView::LoadCommands(message)),
        },
    }
}

/// The view of a result with a symbol error.
pub open spec fn judged<T>(r: Result<T, SymbolError>) -> Result<T, SymbolErrorView> {
    match r {
        Ok(v) => Ok(v),
        Err(e) => Err(e@),
    }
}

/// The address at which `__TEXT` was linked, among `segments`.
pub fn text_vmaddr_among(segments: &[RawSegment]) -> (vmaddr: Result<u64, SymbolError>)
    ensures
        judged(vmaddr) == text_vmaddr_after(segments_view(segments@), 0),
{
    if segments.len() == 0 {
        return Err(SymbolError::NoSegments);
    }
    let mut i: usize = 0;
    while i < segments.len()
        invariant
            i <= segments.len(),
            segments.len() > 0,
            text_vmaddr_after(segments_view(segments@), i as int) == text_vmaddr_after(
                segments_view(segments@),
                0,
            ),
        decreases segments.len() - i,
    {
        let segment = &segments[i];
        proof {
            assert(segments_view(segments@)[i as int] == segment@);
        }
        match &segment.name {
            Err(message) => {
                return Err(SymbolError::SegmentName(message.clone()));
            },
            Ok(Some(name)) => {
                let chars = chars_of(name.as_str());
                if is_word(chars.as_slice(), "__TEXT") {
                    return Ok(segment.address);
                }
            },
            Ok(None) => {},
        }
        i += 1;
    }
    proof {
        assert(segments_view(segments@)[0] == segments@[0]@);
    }
    Ok(segments[0].address)
}

/// The address at which `__TEXT` was linked, from what was read of a file.
pub fn text_vmaddr_from(object: &Result<ObjectSummary, String>) -> (vmaddr: Result<
    u64,
    SymbolError,
>)
    ensures
        judged(vmaddr) == text_vmaddr_of(summary_view(*object)),
{
    match object {
        Err(message) => Err(SymbolError::Unparsable(message.clone())),
        Ok(summary) => {
            let format = chars_of(summary.format.as_str());
            if is_word(format.as_slice(), "MachO") {
                text_vmaddr_among(summary.segments.as_slice())
            } else {
                Err(SymbolError::NotMachO(summary.format.clone()))
            }
        },
    }
}

/// The UUID of a file, from what was read of it.
pub fn uuid_from(object: &Result<ObjectSummary, String>) -> (uuid: Result<
    Option<[u8; 16]>,
    SymbolError,
>)
    ensures
        judged(uuid) == uuid_of(summary_view(*object)),
{
    match object {
        Err(message) => Err(SymbolError::LoadCommands(message.clone())),
        Ok(summary) => match &summary.uuid {
            Ok(u) => Ok(*u),
            Err(message) => Err(SymbolError::LoadCommands(message.clone())),
        },
    }
}

/// The address at which `__TEXT` of the Mach-O file in `data` was linked.
pub fn find_text_vmaddr(data: &[u8]) -> (vmaddr: Result<u64, SymbolError>)
    ensures
        judged(vmaddr) == text_vmaddr_of(object_of(data@)),
{
    text_vmaddr_from(&read_object(data))
}

/// The UUID of the Mach-O file in `data`, where it has one. A file of
/// another format has none.
pub fn extract_macho_uuid(data: &[u8]) -> (uuid: Result<Option<[u8; 16]>, SymbolError>)
    ensures
        judged(uuid) == uuid_of(object_of(data@)),
{
    uuid_from(&read_object(data))
}

/// The display name of the file at `path`: its final name, or the whole
/// path where it has none.
pub open spec fn display_name(path: Seq<char>) -> Seq<char> {
    match basename(path) {
        Some(name) => name,
        None => path,
    }
}

/// What a symbol context is, as a value: the fields of its image.
pub struct ContextView {
    pub name: Seq<char>,
    pub path: Seq<char>,
    pub uuid: Option<[u8; 16]>,
    pub vmaddr_text: u64,
    pub slide: i64,
}

impl View for SymbolContext {
    type V = ContextView;

    open spec fn view(&self) -> ContextView {
        ContextView {
            name: self.main.name@,
            path: self.main.path@,
            uuid: self.main.uuid,
            vmaddr_text: self.main.vmaddr_text,
            slide: self.main.slide,
        }
    }
}

/// The symbol context of the file at `path`, from what was read of it: the
/// file must be Mach-O; the slide starts at zero.
pub open spec fn context_of(path: Seq<char>, object: Result<SummaryView, Seq<char>>) -> Result<
    ContextView,
    SymbolErrorView,
> {
    match text_vmaddr_of(object) {
        Err(e) => Err(e),
        Ok(vmaddr_text) => match uuid_of(object) {
            Err(e) => Err(e),
            Ok(uuid) => Ok(
                ContextView { name: display_name(path), path, uuid, vmaddr_text, slide: 0 },
            ),
        },
    }
}

/// The view of a result that holds a symbol context.
pub open spec fn context_view(r: Result<SymbolContext, SymbolError>) -> Result<
    ContextView,
    SymbolErrorView,
> {
    match r {
        Ok(c) => Ok(c@),
        Err(e) => Err(e@),
    }
}

impl SymbolContext {
    /// The symbol context of the file at `app_path`, from what was read of
    /// the file.
    pub fn from_parts(app_path: &str, object: &Result<ObjectSummary, String>) -> (ctx: Result<
        SymbolContext,
        SymbolError,
    >)
        ensures
            context_view(ctx) == context_of(app_path@, summary_view(*object)),
    {
        let vmaddr_text = match text_vmaddr_from(object) {
            Ok(v) => v,
            Err(e) => {
                return Err(e);
            },
        };
        let uuid = match uuid_from(object) {
            Ok(u) => u,
            Err(e) => {
                return Err(e);
            },
        };
        let name = match basename_of(app_path) {
            Some(name) => name,
            None => app_path.to_owned(),
        };
        Ok(
            SymbolContext {
                main: Image { name, path: app_path.to_owned(), uuid, vmaddr_text, slide: 0 },
            },
        )
    }

    /// The symbol context of the Mach-O file at `app_path`, whose contents
    /// are `data`.
    pub fn new(app_path: &str, data: &[u8]) -> (ctx: Result<SymbolContext, SymbolError>)
        ensures
            context_view(ctx) == context_of(app_path@, object_of(data@)),
    {
        SymbolContext::from_parts(app_path, &read_object(data))
    }
}

} // verus!

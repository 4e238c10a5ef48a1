use vstd::prelude::*;

verus! {

/// Which graphics API the application should render with.
#[derive(Clone, Copy, Debug, PartialEq, Eq, Structural)]
pub enum GraphicsBackend {
    Auto,
    Vulkan,
    Metal,
    Dx12,
    Gl,
}

impl Default for GraphicsBackend {
    fn default() -> (r: Self)
        ensures
            r == GraphicsBackend::Auto,
    {
        GraphicsBackend::Auto
    }
}

/// Whether the GPU should favour battery life or performance.
#[derive(Clone, Copy, Debug, PartialEq, Eq, Structural)]
pub enum PowerPreference {
    Low,
    High,
}

impl Default for PowerPreference {
    fn default() -> (r: Self)
        ensures
            r == PowerPreference::High,
    {
        PowerPreference::High
    }
}

/// Where persistent movie data is kept.
#[derive(Clone, Copy, Debug, PartialEq, Eq, Structural)]
pub enum StorageBackend {
    Disk,
    Memory,
}

impl Default for StorageBackend {
    fn default() -> (r: Self)
        ensures
            r == StorageBackend::Disk,
    {
        StorageBackend::Disk
    }
}

/// How log files are named.
#[derive(Clone, Copy, Debug, PartialEq, Eq, Structural)]
pub enum FilenamePattern {
    SingleFile,
    WithTimestamp,
}

impl Default for FilenamePattern {
    fn default() -> (r: Self)
        ensures
            r == FilenamePattern::SingleFile,
    {
        FilenamePattern::SingleFile
    }
}

/// Settings that control logging output.
#[derive(Clone, Debug, PartialEq)]
pub struct LogPreferences {
    pub filename_pattern: FilenamePattern,
}

impl Default for LogPreferences {
    fn default() -> (r: Self)
        ensures
            r.filename_pattern == FilenamePattern::SingleFile,
    {
        LogPreferences { filename_pattern: FilenamePattern::SingleFile }
    }
}

/// Settings that control where persistent data is stored.
#[derive(Clone, Debug, PartialEq)]
pub struct StoragePreferences {
    pub backend: StorageBackend,
}

impl Default for StoragePreferences {
    fn default() -> (r: Self)
        ensures
            r.backend == StorageBackend::Disk,
    {
        StoragePreferences { backend: StorageBackend::Disk }
    }
}

/// Full output volume, measured in thousandths of the maximum.
pub const FULL_VOLUME: u32 = 1000;

/// The persisted subset of the application's settings.
///
/// Text-valued fields (`language`, `output_device`) hold the raw bytes of the
/// stored string; the volume is a fraction of full volume in thousandths, so
/// that `1000` means full volume.
#[derive(Clone, Debug, PartialEq)]
pub struct SavedGlobalPreferences {
    pub graphics_backend: GraphicsBackend,
    pub graphics_power_preference: PowerPreference,
    pub language: Vec<u8>,
    pub output_device: Option<Vec<u8>>,
    pub mute: bool,
    pub volume: u32,
    pub log: LogPreferences,
    pub storage: StoragePreferences,
}

/// The mathematical image of `SavedGlobalPreferences`: every field as a plain
/// mathematical value.
#[verifier::ext_equal]
pub struct PrefsV {
    pub graphics_backend: GraphicsBackend,
    pub graphics_power_preference: PowerPreference,
    pub language: Seq<u8>,
    pub output_device: Option<Seq<u8>>,
    pub mute: bool,
    pub volume: u32,
    pub filename_pattern: FilenamePattern,
    pub storage_backend: StorageBackend,
}

impl SavedGlobalPreferences {
    /// The volume never exceeds full volume.
    pub open spec fn wf(&self) -> bool {
        self.volume <= FULL_VOLUME
    }

    /// The text fields can stand in a serialized document: free of quotes
    /// and newlines, and the language either reader-validated or the
    /// compiled-in fallback tag.
    pub open spec fn text_wf(&self) -> bool {
        prefs_text_wf(self@)
    }

    pub open spec fn view(&self) -> PrefsV {
        PrefsV {
            graphics_backend: self.graphics_backend,
            graphics_power_preference: self.graphics_power_preference,
            language: self.language@,
            output_device: match self.output_device {
                Some(d) => Some(d@),
                None => None,
            },
            mute: self.mute,
            volume: self.volume,
            filename_pattern: self.log.filename_pattern,
            storage_backend: self.storage.backend,
        }
    }
}

/// The text fields of a preference value can stand in a serialized
/// document: free of quotes and newlines, the language either a
/// well-formed tag or the compiled-in fallback.
pub open spec fn prefs_text_wf(p: PrefsV) -> bool {
    &&& crate::textutil::clean_text(p.language)
    &&& (crate::locale::lang_tag_ok(p.language) || p.language
        == crate::locale::fallback_lang_tag())
    &&& (p.output_device matches Some(d) ==> crate::textutil::clean_text(d))
}

/// The shape of a freshly constructed `SavedGlobalPreferences`: every field
/// at its compiled-in default; the language is whatever the host locale gave,
/// so only its well-formedness is pinned.
pub open spec fn is_fresh_default(d: PrefsV) -> bool {
    &&& d.graphics_backend == GraphicsBackend::Auto
    &&& d.graphics_power_preference == PowerPreference::High
    &&& d.output_device is None
    &&& d.mute == false
    &&& d.volume == FULL_VOLUME
    &&& d.filename_pattern == FilenamePattern::SingleFile
    &&& d.storage_backend == StorageBackend::Disk
    &&& (d.language == crate::locale::fallback_lang_tag() || (crate::locale::lang_tag_ok(
        d.language,
    ) && crate::textutil::clean_text(d.language)))
}

/// The preferences a fresh installation starts with: every field at its
/// compiled-in default, the language taken from the host's locale when that
/// is well formed, "en-US" otherwise.
pub fn default_preferences() -> (r: SavedGlobalPreferences)
    ensures
        is_fresh_default(r@),
        r.wf(),
        r.text_wf(),
{
    SavedGlobalPreferences {
        graphics_backend: GraphicsBackend::Auto,
        graphics_power_preference: PowerPreference::High,
        language: crate::locale::default_language(),
        output_device: None,
        mute: false,
        volume: FULL_VOLUME,
        log: LogPreferences { filename_pattern: FilenamePattern::SingleFile },
        storage: StoragePreferences { backend: StorageBackend::Disk },
    }
}

impl Default for SavedGlobalPreferences {
    fn default() -> (r: Self)
        ensures
            is_fresh_default(r@),
            r.wf(),
            r.text_wf(),
    {
        default_preferences()
    }
}

/// One saved bookmark; the order of bookmarks is meaningful.
#[derive(Clone, Debug, PartialEq)]
pub struct Bookmark {
    pub url: Vec<u8>,
    pub name: Vec<u8>,
}

/// The mathematical image of a `Bookmark`.
#[verifier::ext_equal]
pub struct BookmarkV {
    pub url: Seq<u8>,
    pub name: Seq<u8>,
}

impl BookmarkV {
    /// A bookmark with no URL is unusable.
    pub open spec fn spec_is_invalid(&self) -> bool {
        self.url.len() == 0
    }
}

impl Bookmark {
    pub open spec fn view(&self) -> BookmarkV {
        BookmarkV { url: self.url@, name: self.name@ }
    }

    pub fn is_invalid(&self) -> (r: bool)
        ensures
            r == self@.spec_is_invalid(),
    {
        self.url.len() == 0
    }
}

/// The ordered list of saved bookmarks.
pub type Bookmarks = Vec<Bookmark>;

/// The mathematical image of a bookmark list.
pub open spec fn bookmarks_view(bm: Seq<Bookmark>) -> Seq<BookmarkV> {
    bm.map_values(|b: Bookmark| b@)
}

/// There are usable bookmarks exactly when the list is non-empty and at
/// least one entry is not invalid.
pub open spec fn spec_have_bookmarks(bm: Seq<BookmarkV>) -> bool {
    bm.len() > 0 && exists|i: int| 0 <= i < bm.len() && !bm[i].spec_is_invalid()
}

/// The per-launch overrides supplied on the command line; immutable for the
/// life of the process.
#[derive(Clone, Debug, PartialEq)]
pub struct Opt {
    pub graphics: Option<GraphicsBackend>,
    pub power: Option<PowerPreference>,
    pub volume: Option<u32>,
    pub storage: Option<StorageBackend>,
}

impl Opt {
    pub open spec fn wf(&self) -> bool {
        self.volume is Some ==> self.volume->0 <= FULL_VOLUME
    }
}

impl Default for Opt {
    fn default() -> (r: Self)
        ensures
            r.graphics is None,
            r.power is None,
            r.volume is None,
            r.storage is None,
    {
        Opt { graphics: None, power: None, volume: None, storage: None }
    }
}

/// The priority rule for a single field: a command-line value wins over the
/// persisted one.
pub open spec fn resolve<V>(cli: Option<V>, persisted: V) -> V {
    match cli {
        Some(v) => v,
        None => persisted,
    }
}

/// What went wrong with one field while reading a document.
#[derive(Clone, Copy, Debug, PartialEq, Eq, Structural)]
pub enum WarningKind {
    InvalidValue,
    OutOfRange,
    UnknownKey,
}

/// A non-fatal problem found while reading a document, naming the key it
/// concerns.
#[derive(Clone, Debug, PartialEq)]
pub struct Warning {
    pub kind: WarningKind,
    pub key: Vec<u8>,
}

/// The mathematical image of a `Warning`.
#[verifier::ext_equal]
pub struct WarningV {
    pub kind: WarningKind,
    pub key: Seq<u8>,
}

impl Warning {
    pub open spec fn view(&self) -> WarningV {
        WarningV { kind: self.kind, key: self.key@ }
    }
}

/// Which part of a document a line belongs to.
#[derive(Clone, Copy, Debug, PartialEq, Eq, Structural)]
pub enum Section {
    Top,
    Log,
    Storage,
    Other,
}

/// A line of the original document that the reader did not recognise; it is
/// kept verbatim, with the section it stood in, so that re-serialization
/// preserves it.
#[derive(Clone, Debug, PartialEq)]
pub struct ExtraLine {
    pub section: Section,
    pub bytes: Vec<u8>,
}

/// The mathematical image of an `ExtraLine`.
#[verifier::ext_equal]
pub struct ExtraLineV {
    pub section: Section,
    pub bytes: Seq<u8>,
}

impl ExtraLine {
    pub open spec fn view(&self) -> ExtraLineV {
        ExtraLineV { section: self.section, bytes: self.bytes@ }
    }
}

/// A typed value together with the unrecognised remains of the document it
/// was read from; the two are kept in lockstep so that a read-modify-write
/// cycle loses neither typed fields nor foreign keys.
pub struct DocumentHolder<T> {
    pub value: T,
    pub extras: Vec<ExtraLine>,
}

/// The mathematical image of the unrecognised lines of a document.
pub open spec fn extras_view(extras: Vec<ExtraLine>) -> Seq<ExtraLineV> {
    extras@.map_values(|e: ExtraLine| e@)
}

impl<T> DocumentHolder<T> {
    /// A document that has never been persisted: a bare value.
    pub fn fresh(value: T) -> (r: Self)
        ensures
            r.value == value,
            r.extras@.len() == 0,
    {
        DocumentHolder { value, extras: Vec::new() }
    }
}

/// The warnings list seen mathematically.
pub open spec fn warnings_view(ws: Vec<Warning>) -> Seq<WarningV> {
    ws@.map_values(|w: Warning| w@)
}

} // verus!

use crate::kw::{
    kw_backend, kw_bookmark, kw_filename_pattern, kw_graphics_backend,
    kw_graphics_power_preference, kw_language, kw_log, kw_mute, kw_name, kw_output_device,
    kw_storage, kw_url, kw_volume, kwe_backend, kwe_bookmark, kwe_default, kwe_disk, kwe_dx12,
    kwe_false, kwe_filename_pattern, kwe_gl, kwe_graphics_backend, kwe_graphics_power_preference,
    kwe_high, kwe_language, kwe_log, kwe_low, kwe_memory, kwe_metal, kwe_mute, kwe_name,
    kwe_output_device, kwe_single_file, kwe_storage, kwe_true, kwe_url, kwe_volume, kwe_vulkan,
    kwe_with_timestamp,
};
use crate::locale::{is_valid_language_tag, lang_tag_ok};
use crate::textutil::{
    clean_text, copy_range, is_clean_text, join_lines, join_lines_spec, lines_view, push_all,
};
use crate::types::{
    bookmarks_view, extras_view, Bookmark, BookmarkV, Bookmarks, DocumentHolder, ExtraLine,
    ExtraLineV, FilenamePattern, GraphicsBackend, PowerPreference, PrefsV, SavedGlobalPreferences,
    Section, StorageBackend, FULL_VOLUME,
};
use crate::values::{bool_str, fp_str, gb_str, pp_str, quote, sb_str};
use vstd::prelude::*;

verus! {

/// A `key = value` line.
pub open spec fn kv_spec(k: Seq<u8>, v: Seq<u8>) -> Seq<u8> {
    k + seq![32u8, 61u8, 32u8] + v
}

/// A `[section]` line.
pub open spec fn header_spec(n: Seq<u8>) -> Seq<u8> {
    seq![91u8] + n + seq![93u8]
}

/// A `[[entry]]` line.
pub open spec fn array_header_spec(n: Seq<u8>) -> Seq<u8> {
    seq![91u8, 91u8] + n + seq![93u8, 93u8]
}

/// The canonical volume literal: the integer part, a point, and exactly
/// three fractional digits.
pub open spec fn render_volume_spec(v: u32) -> Seq<u8> {
    let f = (v as int) % 1000;
    seq![
        (48 + (v as int) / 1000) as u8,
        46u8,
        (48 + f / 100) as u8,
        (48 + (f / 10) % 10) as u8,
        (48 + f % 10) as u8,
    ]
}

pub fn render_volume(v: u32) -> (r: Vec<u8>)
    requires
        v <= FULL_VOLUME,
    ensures
        r@ == render_volume_spec(v),
{
    let f = v % 1000;
    let b0: u8 = (48 + v / 1000) as u8;
    let b2: u8 = (48 + f / 100) as u8;
    let b3: u8 = (48 + (f / 10) % 10) as u8;
    let b4: u8 = (48 + f % 10) as u8;
    let r: Vec<u8> = vec![b0, 46u8, b2, b3, b4];
    proof {
        assert(r@ =~~= render_volume_spec(v));
    }
    r
}

pub fn quote_line(c: &Vec<u8>) -> (r: Vec<u8>)
    ensures
        r@ == quote(c@),
{
    let mut r: Vec<u8> = Vec::new();
    r.push(34);
    push_all(&mut r, c);
    r.push(34);
    proof {
        assert(r@ =~~= quote(c@));
    }
    r
}

pub fn kv_line(k: &Vec<u8>, v: &Vec<u8>) -> (r: Vec<u8>)
    ensures
        r@ == kv_spec(k@, v@),
{
    let mut r: Vec<u8> = Vec::new();
    push_all(&mut r, k);
    r.push(32);
    r.push(61);
    r.push(32);
    push_all(&mut r, v);
    proof {
        assert(r@ =~~= kv_spec(k@, v@));
    }
    r
}

pub fn header_line(n: &Vec<u8>) -> (r: Vec<u8>)
    ensures
        r@ == header_spec(n@),
{
    let mut r: Vec<u8> = Vec::new();
    r.push(91);
    push_all(&mut r, n);
    r.push(93);
    proof {
        assert(r@ =~~= header_spec(n@));
    }
    r
}

pub fn array_header_line(n: &Vec<u8>) -> (r: Vec<u8>)
    ensures
        r@ == array_header_spec(n@),
{
    let mut r: Vec<u8> = Vec::new();
    r.push(91);
    r.push(91);
    push_all(&mut r, n);
    r.push(93);
    r.push(93);
    proof {
        assert(r@ =~~= array_header_spec(n@));
    }
    r
}

pub fn gb_bytes(g: GraphicsBackend) -> (r: Vec<u8>)
    ensures
        r@ == gb_str(g),
{
    match g {
        GraphicsBackend::Auto => kwe_default(),
        GraphicsBackend::Vulkan => kwe_vulkan(),
        GraphicsBackend::Metal => kwe_metal(),
        GraphicsBackend::Dx12 => kwe_dx12(),
        GraphicsBackend::Gl => kwe_gl(),
    }
}

pub fn pp_bytes(p: PowerPreference) -> (r: Vec<u8>)
    ensures
        r@ == pp_str(p),
{
    match p {
        PowerPreference::Low => kwe_low(),
        PowerPreference::High => kwe_high(),
    }
}

pub fn sb_bytes(s: StorageBackend) -> (r: Vec<u8>)
    ensures
        r@ == sb_str(s),
{
    match s {
        StorageBackend::Disk => kwe_disk(),
        StorageBackend::Memory => kwe_memory(),
    }
}

pub fn fp_bytes(f: FilenamePattern) -> (r: Vec<u8>)
    ensures
        r@ == fp_str(f),
{
    match f {
        FilenamePattern::SingleFile => kwe_single_file(),
        FilenamePattern::WithTimestamp => kwe_with_timestamp(),
    }
}

pub fn bool_bytes(b: bool) -> (r: Vec<u8>)
    ensures
        r@ == bool_str(b),
{
    if b {
        kwe_true()
    } else {
        kwe_false()
    }
}

/// The kept-verbatim lines that belong to one section, in their original
/// order.
pub open spec fn extras_in(es: Seq<ExtraLineV>, s: Section) -> Seq<Seq<u8>>
    decreases es.len(),
{
    if es.len() == 0 {
        seq![]
    } else {
        (if es[0].section == s {
            seq![es[0].bytes]
        } else {
            seq![]
        }) + extras_in(es.drop_first(), s)
    }
}

pub proof fn lemma_extras_in_snoc(es: Seq<ExtraLineV>, e: ExtraLineV, s: Section)
    ensures
        extras_in(es.push(e), s) == extras_in(es, s) + (if e.section == s {
            seq![e.bytes]
        } else {
            seq![]
        }),
    decreases es.len(),
{
    reveal_with_fuel(extras_in, 3);
    if es.len() == 0 {
        assert(es.push(e)[0] == e);
        assert(es.push(e).drop_first() =~~= Seq::<ExtraLineV>::empty());
        assert(extras_in(es.push(e), s) =~~= extras_in(es, s) + (if e.section == s {
            seq![e.bytes]
        } else {
            seq![]
        }));
    } else {
        assert(es.push(e)[0] == es[0]);
        assert(es.push(e).drop_first() =~~= es.drop_first().push(e));
        lemma_extras_in_snoc(es.drop_first(), e, s);
        assert(extras_in(es.push(e), s) =~~= extras_in(es, s) + (if e.section == s {
            seq![e.bytes]
        } else {
            seq![]
        }));
    }
}

/// Appends the kept lines of one section.
pub fn append_extras(ls: &mut Vec<Vec<u8>>, extras: &Vec<ExtraLine>, sec: Section)
    ensures
        lines_view(final(ls)@) == lines_view(old(ls)@) + extras_in(extras_view(*extras), sec),
{
    let ghost evs = extras_view(*extras);
    let mut i: usize = 0;
    proof {
        assert(evs.subrange(0, 0) =~~= Seq::<ExtraLineV>::empty());
        assert(lines_view(ls@) =~~= lines_view(old(ls)@) + extras_in(evs.subrange(0, 0), sec));
    }
    while i < extras.len()
        invariant
            i <= extras@.len(),
            evs == extras_view(*extras),
            lines_view(ls@) == lines_view(old(ls)@) + extras_in(evs.subrange(0, i as int), sec),
        decreases extras@.len() - i,
    {
        let e = &extras[i];
        proof {
            assert(evs.subrange(0, i + 1) =~~= evs.subrange(0, i as int).push(evs[i as int]));
            lemma_extras_in_snoc(evs.subrange(0, i as int), evs[i as int], sec);
        }
        if e.section == sec {
            let bs = copy_range(&e.bytes, 0, e.bytes.len());
            proof {
                assert(bs@ =~~= e.bytes@);
            }
            let ghost before = ls@;
            ls.push(bs);
            proof {
                assert(lines_view(ls@) =~~= lines_view(before).push(evs[i as int].bytes));
                assert(lines_view(ls@) =~~= lines_view(old(ls)@) + extras_in(
                    evs.subrange(0, i + 1),
                    sec,
                ));
            }
        } else {
            proof {
                assert(lines_view(ls@) =~~= lines_view(old(ls)@) + extras_in(
                    evs.subrange(0, i + 1),
                    sec,
                ));
            }
        }
        i += 1;
    }
    proof {
        assert(evs.subrange(0, extras@.len() as int) =~~= evs);
    }
}

/// The canonical lines of a preferences document: the known fields in a
/// fixed order, each section's kept-verbatim lines after its known fields,
/// foreign sections at the end.
pub open spec fn render_prefs_lines(v: PrefsV, extras: Seq<ExtraLineV>) -> Seq<Seq<u8>> {
    seq![
        kv_spec(kw_graphics_backend(), quote(gb_str(v.graphics_backend))),
        kv_spec(kw_graphics_power_preference(), quote(pp_str(v.graphics_power_preference))),
        kv_spec(kw_language(), quote(v.language)),
    ] + (match v.output_device {
        Some(dv) => seq![kv_spec(kw_output_device(), quote(dv))],
        None => seq![],
    }) + seq![
        kv_spec(kw_mute(), bool_str(v.mute)),
        kv_spec(kw_volume(), render_volume_spec(v.volume)),
    ] + extras_in(extras, Section::Top) + seq![
        header_spec(kw_log()),
        kv_spec(kw_filename_pattern(), quote(fp_str(v.filename_pattern))),
    ] + extras_in(extras, Section::Log) + seq![
        header_spec(kw_storage()),
        kv_spec(kw_backend(), quote(sb_str(v.storage_backend))),
    ] + extras_in(extras, Section::Storage) + extras_in(extras, Section::Other)
}

/// The canonical text of a preferences document.
pub open spec fn render_prefs_spec(v: PrefsV, extras: Seq<ExtraLineV>) -> Seq<u8> {
    join_lines_spec(render_prefs_lines(v, extras))
}

/// The canonical lines of one bookmark entry.
pub open spec fn bm_entry_lines(b: BookmarkV) -> Seq<Seq<u8>> {
    seq![
        array_header_spec(kw_bookmark()),
        kv_spec(kw_url(), quote(b.url)),
        kv_spec(kw_name(), quote(b.name)),
    ]
}

pub open spec fn bm_entries_lines(es: Seq<BookmarkV>) -> Seq<Seq<u8>>
    decreases es.len(),
{
    if es.len() == 0 {
        seq![]
    } else {
        bm_entry_lines(es[0]) + bm_entries_lines(es.drop_first())
    }
}

pub proof fn lemma_bm_entries_snoc(es: Seq<BookmarkV>, b: BookmarkV)
    ensures
        bm_entries_lines(es.push(b)) == bm_entries_lines(es) + bm_entry_lines(b),
    decreases es.len(),
{
    reveal_with_fuel(bm_entries_lines, 3);
    if es.len() == 0 {
        assert(es.push(b)[0] == b);
        assert(es.push(b).drop_first() =~~= Seq::<BookmarkV>::empty());
        assert(bm_entries_lines(es.push(b)) =~~= bm_entries_lines(es) + bm_entry_lines(b));
    } else {
        assert(es.push(b)[0] == es[0]);
        assert(es.push(b).drop_first() =~~= es.drop_first().push(b));
        lemma_bm_entries_snoc(es.drop_first(), b);
        assert(bm_entries_lines(es.push(b)) =~~= bm_entries_lines(es) + bm_entry_lines(b));
    }
}

/// The canonical lines of a bookmarks document.
pub open spec fn render_bm_lines(es: Seq<BookmarkV>, extras: Seq<ExtraLineV>) -> Seq<Seq<u8>> {
    extras_in(extras, Section::Top) + bm_entries_lines(es) + extras_in(extras, Section::Other)
}

/// The canonical text of a bookmarks document.
pub open spec fn render_bm_spec(es: Seq<BookmarkV>, extras: Seq<ExtraLineV>) -> Seq<u8> {
    join_lines_spec(render_bm_lines(es, extras))
}

impl DocumentHolder<SavedGlobalPreferences> {
    /// Serializes the document: the typed fields canonically, the
    /// unrecognised lines verbatim in their sections.
    pub fn serialize(&self) -> (r: Vec<u8>)
        requires
            self.value.wf(),
        ensures
            r@ == render_prefs_spec(self.value@, extras_view(self.extras)),
    {
        let v = &self.value;
        let ghost vv = v@;
        let ghost evs = extras_view(self.extras);
        let mut ls: Vec<Vec<u8>> = Vec::new();
        ls.push(kv_line(&kwe_graphics_backend(), &quote_line(&gb_bytes(v.graphics_backend))));
        ls.push(
            kv_line(
                &kwe_graphics_power_preference(),
                &quote_line(&pp_bytes(v.graphics_power_preference)),
            ),
        );
        ls.push(kv_line(&kwe_language(), &quote_line(&v.language)));
        proof {
            assert(lines_view(ls@) =~~= seq![
                kv_spec(kw_graphics_backend(), quote(gb_str(vv.graphics_backend))),
                kv_spec(kw_graphics_power_preference(), quote(pp_str(vv.graphics_power_preference))),
                kv_spec(kw_language(), quote(vv.language)),
            ]);
        }
        let ghost p1 = lines_view(ls@);
        let ghost devseg: Seq<Seq<u8>> = match vv.output_device {
            Some(dv) => seq![kv_spec(kw_output_device(), quote(dv))],
            None => seq![],
        };
        match &v.output_device {
            Some(dev) => {
                ls.push(kv_line(&kwe_output_device(), &quote_line(dev)));
                proof {
                    assert(lines_view(ls@) =~~= p1 + devseg);
                }
            },
            None => {
                proof {
                    assert(lines_view(ls@) =~~= p1 + devseg);
                }
            },
        }
        let ghost p2 = lines_view(ls@);
        ls.push(kv_line(&kwe_mute(), &bool_bytes(v.mute)));
        ls.push(kv_line(&kwe_volume(), &render_volume(v.volume)));
        proof {
            assert(lines_view(ls@) =~~= p2 + seq![
                kv_spec(kw_mute(), bool_str(vv.mute)),
                kv_spec(kw_volume(), render_volume_spec(vv.volume)),
            ]);
        }
        let ghost p3 = lines_view(ls@);
        append_extras(&mut ls, &self.extras, Section::Top);
        let ghost p4 = lines_view(ls@);
        ls.push(header_line(&kwe_log()));
        ls.push(kv_line(&kwe_filename_pattern(), &quote_line(&fp_bytes(v.log.filename_pattern))));
        proof {
            assert(lines_view(ls@) =~~= p4 + seq![
                header_spec(kw_log()),
                kv_spec(kw_filename_pattern(), quote(fp_str(vv.filename_pattern))),
            ]);
        }
        let ghost p5 = lines_view(ls@);
        append_extras(&mut ls, &self.extras, Section::Log);
        let ghost p6 = lines_view(ls@);
        ls.push(header_line(&kwe_storage()));
        ls.push(kv_line(&kwe_backend(), &quote_line(&sb_bytes(v.storage.backend))));
        proof {
            assert(lines_view(ls@) =~~= p6 + seq![
                header_spec(kw_storage()),
                kv_spec(kw_backend(), quote(sb_str(vv.storage_backend))),
            ]);
        }
        let ghost p7 = lines_view(ls@);
        append_extras(&mut ls, &self.extras, Section::Storage);
        let ghost p8 = lines_view(ls@);
        append_extras(&mut ls, &self.extras, Section::Other);
        proof {
            assert(p4 =~~= p3 + extras_in(evs, Section::Top));
            assert(p6 =~~= p5 + extras_in(evs, Section::Log));
            assert(p8 =~~= p7 + extras_in(evs, Section::Storage));
            assert(lines_view(ls@) =~~= p8 + extras_in(evs, Section::Other));
            assert(lines_view(ls@) =~~= render_prefs_lines(vv, evs));
        }
        join_lines(&ls)
    }
}

impl DocumentHolder<Bookmarks> {
    /// Serializes the document: the entries canonically, the unrecognised
    /// lines verbatim around them.
    pub fn serialize(&self) -> (r: Vec<u8>)
        ensures
            r@ == render_bm_spec(bookmarks_view(self.value@), extras_view(self.extras)),
    {
        let ghost es = bookmarks_view(self.value@);
        let ghost evs = extras_view(self.extras);
        let mut ls: Vec<Vec<u8>> = Vec::new();
        append_extras(&mut ls, &self.extras, Section::Top);
        let mut i: usize = 0;
        proof {
            assert(es.subrange(0, 0) =~~= Seq::<BookmarkV>::empty());
            assert(lines_view(ls@) =~~= extras_in(evs, Section::Top) + bm_entries_lines(
                es.subrange(0, 0),
            ));
        }
        while i < self.value.len()
            invariant
                i <= self.value@.len(),
                es == bookmarks_view(self.value@),
                evs == extras_view(self.extras),
                lines_view(ls@) == extras_in(evs, Section::Top) + bm_entries_lines(
                    es.subrange(0, i as int),
                ),
            decreases self.value@.len() - i,
        {
            let b = &self.value[i];
            let ghost before = lines_view(ls@);
            ls.push(array_header_line(&kwe_bookmark()));
            ls.push(kv_line(&kwe_url(), &quote_line(&b.url)));
            ls.push(kv_line(&kwe_name(), &quote_line(&b.name)));
            proof {
                assert(lines_view(ls@) =~~= before + bm_entry_lines(es[i as int]));
                assert(es.subrange(0, i + 1) =~~= es.subrange(0, i as int).push(es[i as int]));
                lemma_bm_entries_snoc(es.subrange(0, i as int), es[i as int]);
                assert(lines_view(ls@) =~~= extras_in(evs, Section::Top) + bm_entries_lines(
                    es.subrange(0, i + 1),
                ));
            }
            i += 1;
        }
        append_extras(&mut ls, &self.extras, Section::Other);
        proof {
            assert(es.subrange(0, self.value@.len() as int) =~~= es);
            assert(lines_view(ls@) =~~= render_bm_lines(es, evs));
        }
        join_lines(&ls)
    }
}

/// A scoped handle that mutates the typed preferences; the unrecognised
/// lines of the document ride along untouched, so a later serialize loses
/// nothing. Every writer holds a well-formed value: volume in range and
/// text fields that can stand in a serialized document.
pub struct PreferencesWriter {
    doc: DocumentHolder<SavedGlobalPreferences>,
}

impl PreferencesWriter {
    /// The typed value under the writer.
    pub closed spec fn prefs(&self) -> PrefsV {
        self.doc.value@
    }

    /// The unrecognised lines under the writer.
    pub closed spec fn prefs_extras(&self) -> Seq<ExtraLineV> {
        extras_view(self.doc.extras)
    }

    #[verifier::type_invariant]
    spec fn value_well_formed(&self) -> bool {
        self.doc.value.wf() && self.doc.value.text_wf()
    }

    pub fn new(doc: DocumentHolder<SavedGlobalPreferences>) -> (r: Self)
        requires
            doc.value.wf(),
            doc.value.text_wf(),
        ensures
            r.prefs() == doc.value@,
            r.prefs_extras() == extras_view(doc.extras),
    {
        PreferencesWriter { doc }
    }

    /// Surrenders the document; its value is still well formed.
    pub fn into_doc(self) -> (r: DocumentHolder<SavedGlobalPreferences>)
        ensures
            r.value@ == self.prefs(),
            extras_view(r.extras) == self.prefs_extras(),
            r.value.wf(),
            r.value.text_wf(),
    {
        proof {
            use_type_invariant(&self);
        }
        let PreferencesWriter { doc } = self;
        doc
    }

    pub fn set_graphics_backend(&mut self, g: GraphicsBackend)
        ensures
            final(self).prefs() == (PrefsV { graphics_backend: g, ..old(self).prefs() }),
            final(self).prefs_extras() == old(self).prefs_extras(),
    {
        proof {
            use_type_invariant(&*self);
        }
        self.doc.value.graphics_backend = g;
        proof {
            assert(self.prefs() =~~= (PrefsV { graphics_backend: g, ..old(self).prefs() }));
        }
    }

    pub fn set_graphics_power_preference(&mut self, p: PowerPreference)
        ensures
            final(self).prefs() == (PrefsV { graphics_power_preference: p, ..old(self).prefs() }),
            final(self).prefs_extras() == old(self).prefs_extras(),
    {
        proof {
            use_type_invariant(&*self);
        }
        self.doc.value.graphics_power_preference = p;
        proof {
            assert(self.prefs() =~~= (PrefsV {
                graphics_power_preference: p,
                ..old(self).prefs()
            }));
        }
    }

    pub fn set_language(&mut self, lang: Vec<u8>)
        requires
            clean_text(lang@),
            lang_tag_ok(lang@),
        ensures
            final(self).prefs() == (PrefsV { language: lang@, ..old(self).prefs() }),
            final(self).prefs_extras() == old(self).prefs_extras(),
    {
        proof {
            use_type_invariant(&*self);
        }
        let ghost lv = lang@;
        self.doc.value.language = lang;
        proof {
            assert(self.prefs() =~~= (PrefsV { language: lv, ..old(self).prefs() }));
        }
    }

    /// Validates a candidate language and installs it only when it is a
    /// well-formed tag that can stand in a document; the answer says
    /// whether it was taken.
    pub fn set_language_checked(&mut self, lang: Vec<u8>) -> (ok: bool)
        ensures
            ok == (clean_text(lang@) && lang_tag_ok(lang@)),
            ok ==> final(self).prefs() == (PrefsV { language: lang@, ..old(self).prefs() }),
            !ok ==> final(self).prefs() == old(self).prefs(),
            final(self).prefs_extras() == old(self).prefs_extras(),
    {
        if is_clean_text(&lang) && is_valid_language_tag(lang.as_slice()) {
            self.set_language(lang);
            true
        } else {
            false
        }
    }

    pub fn set_output_device(&mut self, dev: Option<Vec<u8>>)
        requires
            dev matches Some(d) ==> clean_text(d@),
        ensures
            final(self).prefs() == (PrefsV {
                output_device: match dev {
                    Some(d) => Some(d@),
                    None => None,
                },
                ..old(self).prefs()
            }),
            final(self).prefs_extras() == old(self).prefs_extras(),
    {
        proof {
            use_type_invariant(&*self);
        }
        let ghost dv: Option<Seq<u8>> = match &dev {
            Some(d) => Some(d@),
            None => None,
        };
        self.doc.value.output_device = dev;
        proof {
            assert(self.prefs() =~~= (PrefsV { output_device: dv, ..old(self).prefs() }));
        }
    }

    pub fn set_mute(&mut self, m: bool)
        ensures
            final(self).prefs() == (PrefsV { mute: m, ..old(self).prefs() }),
            final(self).prefs_extras() == old(self).prefs_extras(),
    {
        proof {
            use_type_invariant(&*self);
        }
        self.doc.value.mute = m;
        proof {
            assert(self.prefs() =~~= (PrefsV { mute: m, ..old(self).prefs() }));
        }
    }

    pub fn set_volume(&mut self, v: u32)
        requires
            v <= FULL_VOLUME,
        ensures
            final(self).prefs() == (PrefsV { volume: v, ..old(self).prefs() }),
            final(self).prefs_extras() == old(self).prefs_extras(),
    {
        proof {
            use_type_invariant(&*self);
        }
        self.doc.value.volume = v;
        proof {
            assert(self.prefs() =~~= (PrefsV { volume: v, ..old(self).prefs() }));
        }
    }

    pub fn set_filename_pattern(&mut self, f: FilenamePattern)
        ensures
            final(self).prefs() == (PrefsV { filename_pattern: f, ..old(self).prefs() }),
            final(self).prefs_extras() == old(self).prefs_extras(),
    {
        proof {
            use_type_invariant(&*self);
        }
        self.doc.value.log.filename_pattern = f;
        proof {
            assert(self.prefs() =~~= (PrefsV { filename_pattern: f, ..old(self).prefs() }));
        }
    }

    pub fn set_storage_backend(&mut self, s: StorageBackend)
        ensures
            final(self).prefs() == (PrefsV { storage_backend: s, ..old(self).prefs() }),
            final(self).prefs_extras() == old(self).prefs_extras(),
    {
        proof {
            use_type_invariant(&*self);
        }
        self.doc.value.storage.backend = s;
        proof {
            assert(self.prefs() =~~= (PrefsV { storage_backend: s, ..old(self).prefs() }));
        }
    }
}

/// A scoped handle that mutates the bookmark list; the unrecognised lines
/// of the document ride along untouched.
pub struct BookmarksWriter {
    doc: DocumentHolder<Bookmarks>,
}

impl BookmarksWriter {
    /// The entries under the writer.
    pub closed spec fn entries(&self) -> Seq<BookmarkV> {
        bookmarks_view(self.doc.value@)
    }

    /// The unrecognised lines under the writer.
    pub closed spec fn bm_extras(&self) -> Seq<ExtraLineV> {
        extras_view(self.doc.extras)
    }

    pub fn new(doc: DocumentHolder<Bookmarks>) -> (r: Self)
        ensures
            r.entries() == bookmarks_view(doc.value@),
            r.bm_extras() == extras_view(doc.extras),
    {
        BookmarksWriter { doc }
    }

    /// Surrenders the document.
    pub fn into_doc(self) -> (r: DocumentHolder<Bookmarks>)
        ensures
            bookmarks_view(r.value@) == self.entries(),
            extras_view(r.extras) == self.bm_extras(),
    {
        let BookmarksWriter { doc } = self;
        doc
    }

    pub fn add(&mut self, b: Bookmark)
        ensures
            final(self).entries() == old(self).entries().push(b@),
            final(self).bm_extras() == old(self).bm_extras(),
    {
        let ghost bv = b@;
        self.doc.value.push(b);
        proof {
            assert(self.entries() =~~= old(self).entries().push(bv));
        }
    }

    pub fn remove(&mut self, index: usize)
        requires
            index < old(self).entries().len(),
        ensures
            final(self).entries() == old(self).entries().remove(index as int),
            final(self).bm_extras() == old(self).bm_extras(),
    {
        self.doc.value.remove(index);
        proof {
            assert(self.entries() =~~= old(self).entries().remove(index as int));
        }
    }

    pub fn set_url(&mut self, index: usize, url: Vec<u8>)
        requires
            index < old(self).entries().len(),
        ensures
            final(self).entries() == old(self).entries().update(
                index as int,
                (BookmarkV { url: url@, ..old(self).entries()[index as int] }),
            ),
            final(self).bm_extras() == old(self).bm_extras(),
    {
        let ghost uv = url@;
        let mut e = self.doc.value.remove(index);
        e.url = url;
        self.doc.value.insert(index, e);
        proof {
            assert(self.entries() =~~= old(self).entries().update(
                index as int,
                (BookmarkV { url: uv, ..old(self).entries()[index as int] }),
            ));
        }
    }

    pub fn set_name(&mut self, index: usize, name: Vec<u8>)
        requires
            index < old(self).entries().len(),
        ensures
            final(self).entries() == old(self).entries().update(
                index as int,
                (BookmarkV { name: name@, ..old(self).entries()[index as int] }),
            ),
            final(self).bm_extras() == old(self).bm_extras(),
    {
        let ghost nv = name@;
        let mut e = self.doc.value.remove(index);
        e.name = name;
        self.doc.value.insert(index, e);
        proof {
            assert(self.entries() =~~= old(self).entries().update(
                index as int,
                (BookmarkV { name: nv, ..old(self).entries()[index as int] }),
            ));
        }
    }
}

} // verus!

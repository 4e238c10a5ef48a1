use crate::kw::{
    kw_backend, kw_filename_pattern, kw_graphics_backend, kw_graphics_power_preference,
    kw_language, kw_log, kw_mute, kw_output_device, kw_storage, kw_volume, kwe_backend,
    kwe_filename_pattern, kwe_graphics_backend, kwe_graphics_power_preference, kwe_language,
    kwe_log, kwe_mute, kwe_output_device, kwe_storage, kwe_volume,
};
use crate::locale::lang_tag_ok;
use crate::locale::is_valid_language_tag;
use crate::textutil::{
    bytes_eq, clean_text, copy_range, find_from, first_occ, is_clean_text, lines_view,
    split_lines, split_lines_spec, trim, trim_spec,
};
use crate::types::{
    extras_view, prefs_text_wf, warnings_view, DocumentHolder, ExtraLine, ExtraLineV,
    FilenamePattern, PrefsV, SavedGlobalPreferences, Section, Warning, WarningKind, WarningV,
};
use crate::values::{
    is_quoted, parse_bool, parse_bool_spec, parse_fp, parse_fp_spec, parse_gb, parse_gb_spec,
    parse_pp, parse_pp_spec, parse_quoted, parse_sb, parse_sb_spec, parse_volume,
    parse_volume_spec, unquote, VolumeParse,
};
use vstd::prelude::*;

verus! {

/// What a single document line is, after trimming.
pub enum LineClass {
    Blank,
    Comment,
    Header(Seq<u8>),
    ArrayHeader(Seq<u8>),
    KeyVal(Seq<u8>, Seq<u8>),
    Junk,
}

/// The bracketed part of a section line: the line cut at its first `#`
/// when that still leaves a `]`-closed head (a trailing comment), the
/// whole line otherwise.
pub open spec fn header_body(t: Seq<u8>) -> Seq<u8> {
    let cut = trim_spec(t.subrange(0, first_occ(t, 35) as int));
    if cut.len() >= 2 && cut[cut.len() - 1] == 93 {
        cut
    } else {
        t
    }
}

/// A value with any trailing comment removed: after a quoted value, what
/// follows the closing quote is dropped when it is only a comment; in a
/// bare value, everything from the first `#` on is dropped.
pub open spec fn strip_value_comment(v: Seq<u8>) -> Seq<u8> {
    if v.len() > 0 && v[0] == 34 {
        let q = 1 + first_occ(v.drop_first(), 34) as int;
        if q < v.len() {
            let rest = trim_spec(v.subrange(q + 1, v.len() as int));
            if rest.len() == 0 || rest[0] == 35 {
                v.subrange(0, q + 1)
            } else {
                v
            }
        } else {
            v
        }
    } else {
        trim_spec(v.subrange(0, first_occ(v, 35) as int))
    }
}

/// Classifies one line: blank, comment, `[section]`, `[[entry]]`,
/// `key = value`, or nothing recognisable. A trailing `# ...` comment after
/// a section header or after a value does not change the classification.
pub open spec fn classify(l: Seq<u8>) -> LineClass {
    let t = trim_spec(l);
    if t.len() == 0 {
        LineClass::Blank
    } else if t[0] == 35 {
        LineClass::Comment
    } else if t[0] == 91 {
        let h = header_body(t);
        if h.len() >= 4 && h[1] == 91 && h[h.len() - 1] == 93 && h[h.len() - 2] == 93 {
            LineClass::ArrayHeader(trim_spec(h.subrange(2, h.len() - 2)))
        } else if h.len() >= 2 && h[h.len() - 1] == 93 {
            LineClass::Header(trim_spec(h.subrange(1, h.len() - 1)))
        } else {
            LineClass::Junk
        }
    } else {
        let j = first_occ(t, 61) as int;
        if j >= t.len() {
            LineClass::Junk
        } else {
            LineClass::KeyVal(
                trim_spec(t.subrange(0, j)),
                strip_value_comment(trim_spec(t.subrange(j + 1, t.len() as int))),
            )
        }
    }
}

/// Removes a trailing comment from a trimmed value.
fn strip_value_comment_exec(v: &Vec<u8>) -> (r: Vec<u8>)
    ensures
        r@ == strip_value_comment(v@),
{
    let n = v.len();
    if n > 0 && v[0] == 34 {
        let q = find_from(v, 1, 34);
        proof {
            assert(v@.subrange(1, n as int) =~= v@.drop_first());
        }
        if q < n {
            let rest = trim(&copy_range(v, q + 1, n));
            if rest.len() == 0 || rest[0] == 35 {
                return copy_range(v, 0, q + 1);
            }
            let r = copy_range(v, 0, n);
            proof {
                assert(r@ =~= v@);
            }
            return r;
        }
        let r = copy_range(v, 0, n);
        proof {
            assert(r@ =~= v@);
        }
        return r;
    }
    let c = find_from(v, 0, 35);
    proof {
        assert(v@.subrange(0, n as int) =~= v@);
    }
    trim(&copy_range(v, 0, c))
}

/// The executable image of `LineClass`.
pub enum LineClassE {
    Blank,
    Comment,
    Header(Vec<u8>),
    ArrayHeader(Vec<u8>),
    KeyVal(Vec<u8>, Vec<u8>),
    Junk,
}

pub open spec fn line_class_view(e: &LineClassE) -> LineClass {
    match e {
        LineClassE::Blank => LineClass::Blank,
        LineClassE::Comment => LineClass::Comment,
        LineClassE::Header(n) => LineClass::Header(n@),
        LineClassE::ArrayHeader(n) => LineClass::ArrayHeader(n@),
        LineClassE::KeyVal(k, v) => LineClass::KeyVal(k@, v@),
        LineClassE::Junk => LineClass::Junk,
    }
}

pub fn classify_line(l: &Vec<u8>) -> (r: LineClassE)
    ensures
        line_class_view(&r) == classify(l@),
{
    let t = trim(l);
    let n = t.len();
    if n == 0 {
        return LineClassE::Blank;
    }
    if t[0] == 35 {
        return LineClassE::Comment;
    }
    if t[0] == 91 {
        proof {
            assert(t@.subrange(0, n as int) =~= t@);
        }
        let c = find_from(&t, 0, 35);
        let cut = trim(&copy_range(&t, 0, c));
        let h: Vec<u8>;
        if cut.len() >= 2 && cut[cut.len() - 1] == 93 {
            h = cut;
        } else {
            h = copy_range(&t, 0, n);
            proof {
                assert(h@ =~= t@);
            }
        }
        proof {
            assert(h@ == header_body(t@));
        }
        let m = h.len();
        if m >= 4 && h[1] == 91 && h[m - 1] == 93 && h[m - 2] == 93 {
            let inner = copy_range(&h, 2, m - 2);
            return LineClassE::ArrayHeader(trim(&inner));
        }
        if m >= 2 && h[m - 1] == 93 {
            let inner = copy_range(&h, 1, m - 1);
            return LineClassE::Header(trim(&inner));
        }
        return LineClassE::Junk;
    }
    let j = find_from(&t, 0, 61);
    proof {
        assert(t@.subrange(0, n as int) =~= t@);
    }
    if j == n {
        return LineClassE::Junk;
    }
    let kpart = copy_range(&t, 0, j);
    let vpart = copy_range(&t, j + 1, n);
    LineClassE::KeyVal(trim(&kpart), strip_value_comment_exec(&trim(&vpart)))
}

/// A document that is not even made of recognisable lines; `line` is the
/// zero-based index of the first offending line.
#[derive(Clone, Copy, Debug, PartialEq, Eq, Structural)]
pub struct DocumentError {
    pub line: usize,
}

/// A successfully read document: its typed value, the unrecognised lines,
/// and one warning per degraded or foreign field.
pub struct ParseResult<T> {
    pub result: DocumentHolder<T>,
    pub warnings: Vec<Warning>,
}

/// The reader's running state over a preferences document.
#[verifier::ext_equal]
pub struct PrefReadV {
    pub value: PrefsV,
    pub warnings: Seq<WarningV>,
    pub extras: Seq<ExtraLineV>,
    pub section: Section,
}

pub open spec fn warn(st: PrefReadV, kind: WarningKind, key: Seq<u8>) -> PrefReadV {
    PrefReadV { warnings: st.warnings.push(WarningV { kind, key }), ..st }
}

pub open spec fn keep(st: PrefReadV, sec: Section, l: Seq<u8>) -> PrefReadV {
    PrefReadV { extras: st.extras.push(ExtraLineV { section: sec, bytes: l }), ..st }
}

/// One recognised `key = value` line at the top level of the preferences
/// document: a valid value replaces the field, an invalid one leaves the
/// field alone and records one warning.
pub open spec fn prefs_top_key(st: PrefReadV, k: Seq<u8>, v: Seq<u8>, l: Seq<u8>) -> PrefReadV {
    if k == kw_graphics_backend() {
        match parse_gb_spec(v) {
            Some(g) => PrefReadV { value: PrefsV { graphics_backend: g, ..st.value }, ..st },
            None => warn(st, WarningKind::InvalidValue, k),
        }
    } else if k == kw_graphics_power_preference() {
        match parse_pp_spec(v) {
            Some(p) => PrefReadV {
                value: PrefsV { graphics_power_preference: p, ..st.value },
                ..st
            },
            None => warn(st, WarningKind::InvalidValue, k),
        }
    } else if k == kw_language() {
        if is_quoted(v) && clean_text(unquote(v)) && lang_tag_ok(unquote(v)) {
            PrefReadV { value: PrefsV { language: unquote(v), ..st.value }, ..st }
        } else {
            warn(st, WarningKind::InvalidValue, k)
        }
    } else if k == kw_output_device() {
        if is_quoted(v) && clean_text(unquote(v)) {
            PrefReadV { value: PrefsV { output_device: Some(unquote(v)), ..st.value }, ..st }
        } else {
            warn(st, WarningKind::InvalidValue, k)
        }
    } else if k == kw_mute() {
        match parse_bool_spec(v) {
            Some(m) => PrefReadV { value: PrefsV { mute: m, ..st.value }, ..st },
            None => warn(st, WarningKind::InvalidValue, k),
        }
    } else if k == kw_volume() {
        match parse_volume_spec(v) {
            VolumeParse::Value(x) => PrefReadV { value: PrefsV { volume: x, ..st.value }, ..st },
            VolumeParse::OutOfRange => warn(st, WarningKind::OutOfRange, k),
            VolumeParse::Malformed => warn(st, WarningKind::InvalidValue, k),
        }
    } else {
        keep(warn(st, WarningKind::UnknownKey, k), Section::Top, l)
    }
}

/// The reader's step over one preferences line.
pub open spec fn prefs_step(st: PrefReadV, l: Seq<u8>) -> Option<PrefReadV> {
    match classify(l) {
        LineClass::Blank => Some(keep(st, st.section, l)),
        LineClass::Comment => Some(keep(st, st.section, l)),
        LineClass::Header(name) => {
            if name == kw_log() {
                Some(PrefReadV { section: Section::Log, ..st })
            } else if name == kw_storage() {
                Some(PrefReadV { section: Section::Storage, ..st })
            } else {
                Some(
                    keep(
                        warn(
                            PrefReadV { section: Section::Other, ..st },
                            WarningKind::UnknownKey,
                            name,
                        ),
                        Section::Other,
                        l,
                    ),
                )
            }
        },
        LineClass::ArrayHeader(name) => Some(
            keep(
                warn(PrefReadV { section: Section::Other, ..st }, WarningKind::UnknownKey, name),
                Section::Other,
                l,
            ),
        ),
        LineClass::KeyVal(k, v) => match st.section {
            Section::Top => Some(prefs_top_key(st, k, v, l)),
            Section::Log => {
                if k == kw_filename_pattern() {
                    match parse_fp_spec(v) {
                        Some(f) => Some(
                            PrefReadV { value: PrefsV { filename_pattern: f, ..st.value }, ..st },
                        ),
                        None => Some(warn(st, WarningKind::InvalidValue, k)),
                    }
                } else {
                    Some(keep(warn(st, WarningKind::UnknownKey, k), Section::Log, l))
                }
            },
            Section::Storage => {
                if k == kw_backend() {
                    match parse_sb_spec(v) {
                        Some(s) => Some(
                            PrefReadV { value: PrefsV { storage_backend: s, ..st.value }, ..st },
                        ),
                        None => Some(warn(st, WarningKind::InvalidValue, k)),
                    }
                } else {
                    Some(keep(warn(st, WarningKind::UnknownKey, k), Section::Storage, l))
                }
            },
            Section::Other => Some(keep(st, Section::Other, l)),
        },
        LineClass::Junk => None,
    }
}

/// The reader's start state: the given defaults, nothing yet seen.
pub open spec fn prefs_init(d: PrefsV) -> PrefReadV {
    PrefReadV { value: d, warnings: seq![], extras: seq![], section: Section::Top }
}

/// The whole read: the step folded over the lines; `None` marks a document
/// that fails structurally.
pub open spec fn prefs_fold(st: PrefReadV, lines: Seq<Seq<u8>>) -> Option<PrefReadV>
    decreases lines.len(),
{
    if lines.len() == 0 {
        Some(st)
    } else {
        match prefs_step(st, lines[0]) {
            None => None,
            Some(s2) => prefs_fold(s2, lines.drop_first()),
        }
    }
}

/// What reading a preferences document from the given defaults yields.
pub open spec fn read_prefs_spec(t: Seq<u8>, d: PrefsV) -> Option<PrefReadV> {
    prefs_fold(prefs_init(d), split_lines_spec(t))
}

pub proof fn lemma_prefs_fold_app(st: PrefReadV, a: Seq<Seq<u8>>, b: Seq<Seq<u8>>)
    ensures
        prefs_fold(st, a + b) == match prefs_fold(st, a) {
            None => None::<PrefReadV>,
            Some(s) => prefs_fold(s, b),
        },
    decreases a.len(),
{
    if a.len() == 0 {
        assert(a + b =~= b);
    } else {
        assert((a + b)[0] == a[0]);
        match prefs_step(st, a[0]) {
            None => {
                assert(prefs_fold(st, a + b) == None::<PrefReadV>);
            },
            Some(s2) => {
                assert((a + b).drop_first() =~= a.drop_first() + b);
                lemma_prefs_fold_app(s2, a.drop_first(), b);
            },
        }
    }
}

/// The reader's state as held by the executable reader.
pub open spec fn pack_prefs(
    value: PrefsV,
    warnings: Seq<WarningV>,
    extras: Seq<ExtraLineV>,
    section: Section,
) -> PrefReadV {
    PrefReadV { value, warnings, extras, section }
}

/// Appends one kept-verbatim line.
pub fn push_extra(extras: &mut Vec<ExtraLine>, sec: Section, line: &Vec<u8>)
    ensures
        extras_view(*final(extras)) == extras_view(*old(extras)).push(
            ExtraLineV { section: sec, bytes: line@ },
        ),
{
    let bs = copy_range(line, 0, line.len());
    proof {
        assert(bs@ =~= line@);
    }
    extras.push(ExtraLine { section: sec, bytes: bs });
    proof {
        assert(extras_view(*extras) =~~= extras_view(*old(extras)).push(
            ExtraLineV { section: sec, bytes: line@ },
        ));
    }
}

/// Appends one warning.
pub fn push_warning(warnings: &mut Vec<Warning>, kind: WarningKind, key: Vec<u8>)
    ensures
        warnings_view(*final(warnings)) == warnings_view(*old(warnings)).push(
            WarningV { kind, key: key@ },
        ),
{
    let ghost kk = key@;
    warnings.push(Warning { kind, key });
    proof {
        assert(warnings_view(*warnings) =~~= warnings_view(*old(warnings)).push(
            WarningV { kind, key: kk },
        ));
    }
}

/// Applies one line to the reader's state; `false` marks a structurally
/// unrecognisable line, which leaves the state unchanged.
#[verifier::rlimit(100)]
fn apply_line(
    value: &mut SavedGlobalPreferences,
    warnings: &mut Vec<Warning>,
    extras: &mut Vec<ExtraLine>,
    section: &mut Section,
    line: &Vec<u8>,
) -> (ok: bool)
    ensures
        ({
            let cur = pack_prefs(
                old(value)@,
                warnings_view(*old(warnings)),
                extras_view(*old(extras)),
                *old(section),
            );
            let next = pack_prefs(
                final(value)@,
                warnings_view(*final(warnings)),
                extras_view(*final(extras)),
                *final(section),
            );
            if ok {
                prefs_step(cur, line@) == Some(next)
            } else {
                prefs_step(cur, line@) == None::<PrefReadV>
            }
        }),
{
    let ghost cur = pack_prefs(value@, warnings_view(*warnings), extras_view(*extras), *section);
    let ghost lseq = line@;
        let class = classify_line(line);
        match class {
            LineClassE::Blank => {
                push_extra(extras, *section, line);
            },
            LineClassE::Comment => {
                push_extra(extras, *section, line);
            },
            LineClassE::Header(name) => {
                if bytes_eq(&name, &kwe_log()) {
                    *section = Section::Log;
                } else if bytes_eq(&name, &kwe_storage()) {
                    *section = Section::Storage;
                } else {
                    *section = Section::Other;
                    push_warning(warnings, WarningKind::UnknownKey, name);
                    push_extra(extras, Section::Other, line);
                }
            },
            LineClassE::ArrayHeader(name) => {
                *section = Section::Other;
                push_warning(warnings, WarningKind::UnknownKey, name);
                push_extra(extras, Section::Other, line);
            },
            LineClassE::KeyVal(k, v) => {
                match *section {
                    Section::Top => {
                        if bytes_eq(&k, &kwe_graphics_backend()) {
                            match parse_gb(&v) {
                                Some(g) => {
                                    value.graphics_backend = g;
                                },
                                None => {
                                    push_warning(warnings, WarningKind::InvalidValue, k);
                                },
                            }
                        } else if bytes_eq(&k, &kwe_graphics_power_preference()) {
                            match parse_pp(&v) {
                                Some(p) => {
                                    value.graphics_power_preference = p;
                                },
                                None => {
                                    push_warning(warnings, WarningKind::InvalidValue, k);
                                },
                            }
                        } else if bytes_eq(&k, &kwe_language()) {
                            let parsed = parse_quoted(&v);
                            match parsed {
                                Some(c) => {
                                    if is_clean_text(&c) && is_valid_language_tag(c.as_slice()) {
                                        value.language = c;
                                    } else {
                                        push_warning(warnings, WarningKind::InvalidValue, k);
                                    }
                                },
                                None => {
                                    push_warning(warnings, WarningKind::InvalidValue, k);
                                },
                            }
                        } else if bytes_eq(&k, &kwe_output_device()) {
                            let parsed = parse_quoted(&v);
                            match parsed {
                                Some(c) => {
                                    if is_clean_text(&c) {
                                        value.output_device = Some(c);
                                    } else {
                                        push_warning(warnings, WarningKind::InvalidValue, k);
                                    }
                                },
                                None => {
                                    push_warning(warnings, WarningKind::InvalidValue, k);
                                },
                            }
                        } else if bytes_eq(&k, &kwe_mute()) {
                            match parse_bool(&v) {
                                Some(m) => {
                                    value.mute = m;
                                },
                                None => {
                                    push_warning(warnings, WarningKind::InvalidValue, k);
                                },
                            }
                        } else if bytes_eq(&k, &kwe_volume()) {
                            match parse_volume(&v) {
                                VolumeParse::Value(x) => {
                                    value.volume = x;
                                },
                                VolumeParse::OutOfRange => {
                                    push_warning(warnings, WarningKind::OutOfRange, k);
                                },
                                VolumeParse::Malformed => {
                                    push_warning(warnings, WarningKind::InvalidValue, k);
                                },
                            }
                        } else {
                            push_warning(warnings, WarningKind::UnknownKey, k);
                            push_extra(extras, Section::Top, line);
                        }
                    },
                    Section::Log => {
                        if bytes_eq(&k, &kwe_filename_pattern()) {
                            match parse_fp(&v) {
                                Some(f) => {
                                    value.log.filename_pattern = f;
                                },
                                None => {
                                    push_warning(warnings, WarningKind::InvalidValue, k);
                                },
                            }
                        } else {
                            push_warning(warnings, WarningKind::UnknownKey, k);
                            push_extra(extras, Section::Log, line);
                        }
                    },
                    Section::Storage => {
                        if bytes_eq(&k, &kwe_backend()) {
                            match parse_sb(&v) {
                                Some(s) => {
                                    value.storage.backend = s;
                                },
                                None => {
                                    push_warning(warnings, WarningKind::InvalidValue, k);
                                },
                            }
                        } else {
                            push_warning(warnings, WarningKind::UnknownKey, k);
                            push_extra(extras, Section::Storage, line);
                        }
                    },
                    Section::Other => {
                        push_extra(extras, Section::Other, line);
                    },
                }
            },
            LineClassE::Junk => {
                return false;
            },
        }
    proof {
        assert(prefs_step(cur, lseq) matches Some(s2) && s2 =~~= pack_prefs(
            value@,
            warnings_view(*warnings),
            extras_view(*extras),
            *section,
        ));
    }
    true
}

/// Reads a preferences document starting from the given defaults. Every
/// recognised, valid field replaces the default; every invalid or unknown
/// field leaves the value at its default and records one warning; only a
/// line that is not blank, comment, section header or `key = value` fails
/// the whole read.
pub fn read_preferences_with(text: &Vec<u8>, defaults: SavedGlobalPreferences) -> (r: Result<
    ParseResult<SavedGlobalPreferences>,
    DocumentError,
>)
    ensures
        match r {
            Ok(pr) => read_prefs_spec(text@, defaults@) matches Some(st) && pr.result.value@
                == st.value && extras_view(pr.result.extras) == st.extras && warnings_view(
                pr.warnings,
            ) == st.warnings,
            Err(_) => read_prefs_spec(text@, defaults@) is None,
        },
{
    let lines = split_lines(text);
    let ghost lv = lines_view(lines@);
    let mut value = defaults;
    let mut warnings: Vec<Warning> = Vec::new();
    let mut extras: Vec<ExtraLine> = Vec::new();
    let mut section = Section::Top;
    let ghost d = value@;
    let mut i: usize = 0;
    proof {
        assert(lv.subrange(0, 0) =~= Seq::<Seq<u8>>::empty());
        assert(warnings_view(warnings) =~= Seq::<WarningV>::empty());
        assert(extras_view(extras) =~= Seq::<ExtraLineV>::empty());
        assert(prefs_fold(prefs_init(d), lv.subrange(0, 0)) == Some(
            pack_prefs(value@, warnings_view(warnings), extras_view(extras), section),
        ));
    }
    while i < lines.len()
        invariant
            i <= lines@.len(),
            lv == lines_view(lines@),
            d == defaults@,
            lv == split_lines_spec(text@),
            prefs_fold(prefs_init(d), lv.subrange(0, i as int)) == Some(
                pack_prefs(value@, warnings_view(warnings), extras_view(extras), section),
            ),
        decreases lines@.len() - i,
    {
        let line = &lines[i];
        let ghost cur = pack_prefs(value@, warnings_view(warnings), extras_view(extras), section);
        let ghost lseq = line@;
        proof {
            assert(lv.subrange(0, i + 1) =~= lv.subrange(0, i as int) + seq![lseq]);
            lemma_prefs_fold_app(prefs_init(d), lv.subrange(0, i as int), seq![lseq]);
            assert(seq![lseq].drop_first() =~= Seq::<Seq<u8>>::empty());
            match prefs_step(cur, lseq) {
                None => {},
                Some(s2) => {
                    assert(prefs_fold(s2, seq![lseq].drop_first()) == Some(s2));
                },
            }
            assert(prefs_fold(cur, seq![lseq]) == prefs_step(cur, lseq));
        }
        let ok = apply_line(&mut value, &mut warnings, &mut extras, &mut section, line);
        if !ok {
            proof {
                assert(prefs_step(cur, lseq) == None::<PrefReadV>);
                assert(lv =~= lv.subrange(0, i + 1) + lv.subrange(i + 1, lv.len() as int));
                lemma_prefs_fold_app(
                    prefs_init(d),
                    lv.subrange(0, i + 1),
                    lv.subrange(i + 1, lv.len() as int),
                );
                assert(d == defaults@);
                assert(lv == split_lines_spec(text@));
                assert(read_prefs_spec(text@, defaults@) is None);
            }
            return Err(DocumentError { line: i });
        }
        i += 1;
    }
    proof {
        assert(lv.subrange(0, lines@.len() as int) =~= lv);
        assert(d == defaults@);
        assert(lv == split_lines_spec(text@));
        assert(read_prefs_spec(text@, defaults@) == prefs_fold(prefs_init(d), lv));
        assert(read_prefs_spec(text@, defaults@) == Some(
            pack_prefs(value@, warnings_view(warnings), extras_view(extras), section),
        ));
    }
    Ok(
        ParseResult {
            result: DocumentHolder { value, extras },
            warnings,
        },
    )
}

/// One reader step keeps the value well formed: the volume stays in range
/// and the text fields stay serialization-safe, because a field is only
/// replaced by a validated value.
pub proof fn lemma_step_value_wf(st: PrefReadV, l: Seq<u8>)
    requires
        prefs_step(st, l) is Some,
        st.value.volume <= crate::types::FULL_VOLUME,
        prefs_text_wf(st.value),
    ensures
        prefs_step(st, l)->0.value.volume <= crate::types::FULL_VOLUME,
        prefs_text_wf(prefs_step(st, l)->0.value),
{
    match classify(l) {
        LineClass::KeyVal(k, v) => {
            if st.section == Section::Top && k == crate::kw::kw_volume() {
                match parse_volume_spec(v) {
                    VolumeParse::Value(x) => {
                        crate::values::lemma_number_val_nonneg(v);
                    },
                    VolumeParse::OutOfRange => {},
                    VolumeParse::Malformed => {},
                }
            }
        },
        _ => {},
    }
}

/// The whole read keeps the value well formed.
pub proof fn lemma_fold_value_wf(st: PrefReadV, lines: Seq<Seq<u8>>)
    requires
        prefs_fold(st, lines) is Some,
        st.value.volume <= crate::types::FULL_VOLUME,
        prefs_text_wf(st.value),
    ensures
        prefs_fold(st, lines)->0.value.volume <= crate::types::FULL_VOLUME,
        prefs_text_wf(prefs_fold(st, lines)->0.value),
    decreases lines.len(),
{
    if lines.len() > 0 {
        lemma_step_value_wf(st, lines[0]);
        lemma_fold_value_wf(prefs_step(st, lines[0])->0, lines.drop_first());
    }
}

/// Reads a preferences document, starting from the freshly computed
/// defaults (whose language field follows the host's locale).
pub fn read_preferences(text: &Vec<u8>) -> (r: Result<
    ParseResult<SavedGlobalPreferences>,
    DocumentError,
>)
    ensures
        match r {
            Ok(pr) => exists|d: PrefsV|
                #[trigger] crate::types::is_fresh_default(d) && (read_prefs_spec(text@, d)
                    matches Some(st) && pr.result.value@ == st.value && extras_view(
                    pr.result.extras,
                ) == st.extras && warnings_view(pr.warnings) == st.warnings),
            Err(_) => exists|d: PrefsV|
                #[trigger] crate::types::is_fresh_default(d) && read_prefs_spec(text@, d) is None,
        },
{
    let defaults = crate::types::default_preferences();
    let ghost d = defaults@;
    let r = read_preferences_with(text, defaults);
    proof {
        assert(crate::types::is_fresh_default(d));
    }
    r
}

} // verus!

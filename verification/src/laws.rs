use crate::kw::{
    kw_backend, kw_default, kw_disk, kw_dx12, kw_false, kw_filename_pattern, kw_gl,
    kw_graphics_backend, kw_graphics_power_preference, kw_high, kw_language, kw_log, kw_low,
    kw_memory, kw_metal, kw_mute, kw_output_device, kw_single_file, kw_storage, kw_true,
    kw_volume, kw_vulkan, kw_with_timestamp,
};
use crate::locale::lang_tag_ok;
use crate::read::{
    classify, header_body, prefs_fold, prefs_init, prefs_step, read_prefs_spec,
    strip_value_comment, LineClass, PrefReadV,
};
use crate::textutil::{
    clean_text, first_occ, is_space, lemma_first_occ_at, lemma_first_occ_props, lemma_split_join,
    line_ok, split_lines_spec, trim_end_spec, trim_spec, trim_start_spec,
};
use crate::types::{
    is_fresh_default, ExtraLineV, FilenamePattern, GraphicsBackend, PowerPreference, PrefsV,
    Section, StorageBackend, WarningV, FULL_VOLUME,
};
use crate::values::{
    bool_str, digits_val, fp_str, gb_str, is_quoted, lemma_digits_val_bounds,
    lemma_unquote_quote, number_val, number_wf, parse_bool_spec, parse_fp_spec, parse_gb_spec,
    parse_pp_spec, parse_sb_spec, parse_volume_spec, pp_str, quote, sb_str, unquote, VolumeParse,
};
use crate::write::{
    extras_in, header_spec, kv_spec, render_prefs_lines, render_prefs_spec, render_volume_spec,
};
use vstd::prelude::*;

verus! {

/// A recognised key of the top level of the preferences document.
pub open spec fn top_key_known(k: Seq<u8>) -> bool {
    ||| k == kw_graphics_backend()
    ||| k == kw_graphics_power_preference()
    ||| k == kw_language()
    ||| k == kw_output_device()
    ||| k == kw_mute()
    ||| k == kw_volume()
}

/// Whether a value is acceptable for a recognised top-level key.
pub open spec fn top_value_ok(k: Seq<u8>, v: Seq<u8>) -> bool {
    if k == kw_graphics_backend() {
        parse_gb_spec(v) is Some
    } else if k == kw_graphics_power_preference() {
        parse_pp_spec(v) is Some
    } else if k == kw_language() {
        is_quoted(v) && clean_text(unquote(v)) && lang_tag_ok(unquote(v))
    } else if k == kw_output_device() {
        is_quoted(v) && clean_text(unquote(v))
    } else if k == kw_mute() {
        parse_bool_spec(v) is Some
    } else {
        parse_volume_spec(v) matches VolumeParse::Value(x)
    }
}

/// Degrading is local and accounted for: a top-level line whose key is
/// recognised but whose value is invalid leaves the typed value exactly as
/// it was, keeps no text, and records exactly one warning. Folded over a
/// document this gives one warning per invalid field, each field left at
/// the value it had before the line, so a document of invalid fields reads
/// back as the defaults with one warning for each.
pub proof fn lemma_invalid_field_degrades(st: PrefReadV, l: Seq<u8>, k: Seq<u8>, v: Seq<u8>)
    requires
        st.section == Section::Top,
        classify(l) == LineClass::KeyVal(k, v),
        top_key_known(k),
        !top_value_ok(k, v),
    ensures
        prefs_step(st, l) matches Some(s2) && s2.value == st.value && s2.extras == st.extras
            && s2.warnings.len() == st.warnings.len() + 1 && s2.warnings.subrange(
            0,
            st.warnings.len() as int,
        ) == st.warnings,
{
    let s2 = prefs_step(st, l)->0;
    assert(s2.warnings.subrange(0, st.warnings.len() as int) =~= st.warnings);
}

/// A valid top-level line is silent: it records no warning and keeps no
/// text; it only replaces its own field.
pub proof fn lemma_valid_field_silent(st: PrefReadV, l: Seq<u8>, k: Seq<u8>, v: Seq<u8>)
    requires
        st.section == Section::Top,
        classify(l) == LineClass::KeyVal(k, v),
        top_key_known(k),
        top_value_ok(k, v),
    ensures
        prefs_step(st, l) matches Some(s2) && s2.warnings == st.warnings && s2.extras == st.extras,
{
}

/// No lost update: two sequential scoped mutations that touch disjoint
/// fields both take effect. Each scoped mutation replaces exactly its own
/// field of the persisted value, so mutating the volume after the mute
/// keeps the mute, and every field neither touched keeps its first value.
pub proof fn lemma_sequential_writes_no_lost_update(p0: PrefsV, m: bool, v: u32)
    ensures
        ({
            let p1 = PrefsV { mute: m, ..p0 };
            let p2 = PrefsV { volume: v, ..p1 };
            &&& p2.mute == m
            &&& p2.volume == v
            &&& p2.graphics_backend == p0.graphics_backend
            &&& p2.graphics_power_preference == p0.graphics_power_preference
            &&& p2.language == p0.language
            &&& p2.output_device == p0.output_device
            &&& p2.filename_pattern == p0.filename_pattern
            &&& p2.storage_backend == p0.storage_backend
        }),
{
}

/// Reading back a canonically rendered volume yields the very value.
pub proof fn lemma_volume_roundtrip(v: u32)
    requires
        v <= FULL_VOLUME,
    ensures
        parse_volume_spec(render_volume_spec(v)) == VolumeParse::Value(v),
{
    reveal_with_fuel(digits_val, 5);
    let r = render_volume_spec(v);
    let f = (v as int) % 1000;
    let b0 = (48 + (v as int) / 1000) as u8;
    let b2 = (48 + f / 100) as u8;
    let b3 = (48 + (f / 10) % 10) as u8;
    let b4 = (48 + f % 10) as u8;
    assert(r =~= seq![b0, 46u8, b2, b3, b4]);
    assert(r[0] != 45);
    assert(r[0] != 46);
    assert(r[1] == 46);
    crate::textutil::lemma_first_occ_at(r, 46, 1);
    let ip = r.subrange(0, 1);
    let fr = r.subrange(2, 5);
    assert(ip =~= seq![b0]);
    assert(fr =~= seq![b2, b3, b4]);
    assert(fr.drop_last() =~= seq![b2, b3]);
    assert(fr.drop_last().drop_last() =~= seq![b2]);
    assert(fr.drop_last().drop_last().drop_last() =~= Seq::<u8>::empty());
    assert(ip.drop_last() =~= Seq::<u8>::empty());
    assert(digits_val(ip) == b0 - 48);
    assert(digits_val(fr) == ((b2 - 48) * 10 + (b3 - 48)) * 10 + (b4 - 48));
    assert(number_wf(r));
    assert(digits_val(fr) == (f / 100) * 100 + ((f / 10) % 10) * 10 + f % 10);
    assert((f / 100) * 100 + ((f / 10) % 10) * 10 + f % 10 == f);
    assert(number_val(r) == ((v as int) / 1000) * 1000 + f);
    assert(number_val(r) == v as int);
}

/// A word of the document grammar: lower-case letters, digits, underscore
/// or hyphen; such a word can never be mistaken for punctuation.
pub open spec fn word_ok(s: Seq<u8>) -> bool {
    s.len() > 0 && forall|i: int|
        0 <= i < s.len() ==> (97 <= #[trigger] s[i] <= 122 || s[i] == 95 || 48 <= s[i] <= 57
            || s[i] == 45)
}

/// Every keyword of the two schemas is a plain word.
pub proof fn lemma_kw_words()
    ensures
        word_ok(kw_graphics_backend()),
        word_ok(kw_graphics_power_preference()),
        word_ok(kw_language()),
        word_ok(kw_output_device()),
        word_ok(kw_mute()),
        word_ok(kw_volume()),
        word_ok(kw_filename_pattern()),
        word_ok(kw_backend()),
        word_ok(kw_log()),
        word_ok(kw_storage()),
        word_ok(kw_default()),
        word_ok(kw_vulkan()),
        word_ok(kw_metal()),
        word_ok(kw_dx12()),
        word_ok(kw_gl()),
        word_ok(kw_low()),
        word_ok(kw_high()),
        word_ok(kw_disk()),
        word_ok(kw_memory()),
        word_ok(kw_single_file()),
        word_ok(kw_with_timestamp()),
        word_ok(kw_true()),
        word_ok(kw_false()),
{
}

/// The serialized name of any enumerated value is a plain word.
pub proof fn lemma_value_words(g: GraphicsBackend, p: PowerPreference, s: StorageBackend, f: FilenamePattern, b: bool)
    ensures
        word_ok(gb_str(g)),
        word_ok(pp_str(p)),
        word_ok(sb_str(s)),
        word_ok(fp_str(f)),
        word_ok(bool_str(b)),
{
    lemma_kw_words();
}

/// Comment stripping is the identity on a quoted clean value.
pub proof fn lemma_strip_quoted_id(c: Seq<u8>)
    requires
        clean_text(c),
    ensures
        strip_value_comment(quote(c)) == quote(c),
{
    reveal_with_fuel(trim_start_spec, 2);
    reveal_with_fuel(trim_end_spec, 2);
    let v = quote(c);
    assert(v[0] == 34);
    assert(v.drop_first() =~= c + seq![34u8]);
    assert(forall|i: int| 0 <= i < c.len() ==> v.drop_first()[i] != 34);
    assert(v.drop_first()[c.len() as int] == 34);
    lemma_first_occ_at(v.drop_first(), 34, c.len() as int);
    let q = 1 + first_occ(v.drop_first(), 34) as int;
    assert(q == v.len() - 1);
    assert(v.subrange(q + 1, v.len() as int) =~= Seq::<u8>::empty());
    assert(trim_spec(v.subrange(q + 1, v.len() as int)).len() == 0);
    assert(v.subrange(0, q + 1) =~= v);
}

/// Comment stripping is the identity on a bare value free of `#`.
pub proof fn lemma_strip_bare_id(v: Seq<u8>)
    requires
        v.len() > 0,
        v[0] != 34,
        !is_space(v[0]),
        !is_space(v[v.len() - 1]),
        forall|i: int| 0 <= i < v.len() ==> #[trigger] v[i] != 35,
    ensures
        strip_value_comment(v) == v,
{
    reveal_with_fuel(trim_start_spec, 2);
    reveal_with_fuel(trim_end_spec, 2);
    lemma_first_occ_at(v, 35, v.len() as int);
    assert(v.subrange(0, v.len() as int) =~= v);
    assert(trim_start_spec(v) == v);
    assert(trim_end_spec(v) == v);
}

/// A `key = value` line made of a word key and a comment-free value with
/// firm edges classifies back into exactly that key and value.
pub proof fn lemma_classify_kv(k: Seq<u8>, v: Seq<u8>)
    requires
        word_ok(k),
        v.len() > 0,
        !is_space(v[0]),
        !is_space(v[v.len() - 1]),
        strip_value_comment(v) == v,
    ensures
        classify(kv_spec(k, v)) == LineClass::KeyVal(k, v),
{
    reveal_with_fuel(trim_start_spec, 3);
    reveal_with_fuel(trim_end_spec, 3);
    let l = kv_spec(k, v);
    let kn = k.len() as int;
    assert(l[0] == k[0]);
    assert(!is_space(l[0]) && l[0] != 35 && l[0] != 91);
    assert(l[l.len() - 1] == v[v.len() - 1]);
    assert(trim_start_spec(l) == l);
    assert(trim_end_spec(l) == l);
    assert(trim_spec(l) == l);
    assert(forall|i: int| 0 <= i < kn + 1 ==> l[i] != 61);
    assert(l[kn + 1] == 61);
    lemma_first_occ_at(l, 61, kn + 1);
    let kp = l.subrange(0, kn + 1);
    assert(kp =~= k + seq![32u8]);
    assert(trim_start_spec(kp) == kp);
    assert(kp.drop_last() =~= k);
    assert(trim_end_spec(kp) == trim_end_spec(k));
    assert(trim_end_spec(k) == k);
    assert(trim_spec(kp) == k);
    let vp = l.subrange(kn + 2, l.len() as int);
    assert(vp =~= seq![32u8] + v);
    assert(vp.drop_first() =~= v);
    assert(trim_start_spec(vp) == trim_start_spec(v));
    assert(trim_start_spec(v) == v);
    assert(trim_end_spec(v) == v);
    assert(trim_spec(vp) == v);
}

/// A `[name]` line made of a word classifies back into that section name.
pub proof fn lemma_classify_header(n: Seq<u8>)
    requires
        word_ok(n),
    ensures
        classify(header_spec(n)) == LineClass::Header(n),
{
    reveal_with_fuel(trim_start_spec, 3);
    reveal_with_fuel(trim_end_spec, 3);
    let l = header_spec(n);
    assert(l[0] == 91);
    assert(l[1] == n[0]);
    assert(l[l.len() - 1] == 93);
    assert(l[l.len() - 2] == n[n.len() - 1]);
    assert(trim_start_spec(l) == l);
    assert(trim_end_spec(l) == l);
    assert(trim_spec(l) == l);
    assert(forall|i: int| 0 <= i < l.len() ==> l[i] != 35);
    lemma_first_occ_at(l, 35, l.len() as int);
    assert(l.subrange(0, l.len() as int) =~= l);
    assert(header_body(l) == l);
    assert(l.len() >= 4 ==> l[1] != 91);
    let inner = l.subrange(1, l.len() - 1);
    assert(inner =~= n);
    assert(trim_start_spec(n) == n);
    assert(trim_end_spec(n) == n);
    assert(trim_spec(inner) == n);
}

/// A quoted word has firm edges and no newline.
pub proof fn lemma_quote_edges(c: Seq<u8>)
    requires
        clean_text(c),
    ensures
        is_quoted(quote(c)),
        unquote(quote(c)) == c,
        quote(c).len() > 0,
        !is_space(quote(c)[0]),
        !is_space(quote(c)[quote(c).len() - 1]),
        forall|i: int| 0 <= i < quote(c).len() ==> #[trigger] quote(c)[i] != 10,
{
    lemma_unquote_quote(c);
    assert(quote(c)[0] == 34);
    assert(quote(c)[quote(c).len() - 1] == 34);
}

/// Reading back a rendered enumerated value yields the very value.
pub proof fn lemma_enum_roundtrips(g: GraphicsBackend, p: PowerPreference, s: StorageBackend, f: FilenamePattern, b: bool)
    ensures
        parse_gb_spec(quote(gb_str(g))) == Some(g),
        parse_pp_spec(quote(pp_str(p))) == Some(p),
        parse_sb_spec(quote(sb_str(s))) == Some(s),
        parse_fp_spec(quote(fp_str(f))) == Some(f),
        parse_bool_spec(bool_str(b)) == Some(b),
{
    lemma_kw_words();
    lemma_value_words(g, p, s, f, b);
    assert(clean_text(gb_str(g)));
    assert(clean_text(pp_str(p)));
    assert(clean_text(sb_str(s)));
    assert(clean_text(fp_str(f)));
    lemma_unquote_quote(gb_str(g));
    lemma_unquote_quote(pp_str(p));
    lemma_unquote_quote(sb_str(s));
    lemma_unquote_quote(fp_str(f));
    assert(kw_default().len() == 7);
    assert(kw_vulkan().len() == 6);
    assert(kw_metal().len() == 5);
    assert(kw_dx12().len() == 4);
    assert(kw_gl().len() == 2);
    assert(kw_low().len() == 3);
    assert(kw_high().len() == 4);
    assert(kw_disk().len() == 4);
    assert(kw_memory().len() == 6);
    assert(kw_single_file().len() == 11);
    assert(kw_with_timestamp().len() == 14);
    assert(kw_true().len() == 4);
    assert(kw_false().len() == 5);
}


/// The lines of a canonical preferences document with no foreign material.
pub open spec fn canonical_lines(v: PrefsV) -> Seq<Seq<u8>> {
    render_prefs_lines(v, Seq::<ExtraLineV>::empty())
}

/// The first three canonical lines: backend, power preference, language.
pub open spec fn head_lines(v: PrefsV) -> Seq<Seq<u8>> {
    seq![
        kv_spec(kw_graphics_backend(), quote(gb_str(v.graphics_backend))),
        kv_spec(kw_graphics_power_preference(), quote(pp_str(v.graphics_power_preference))),
        kv_spec(kw_language(), quote(v.language)),
    ]
}

/// The optional output-device line.
pub open spec fn dev_lines(v: PrefsV) -> Seq<Seq<u8>> {
    match v.output_device {
        Some(d) => seq![kv_spec(kw_output_device(), quote(d))],
        None => seq![],
    }
}

/// The closing canonical lines: mute, volume, and the two sections.
pub open spec fn tail_lines(v: PrefsV) -> Seq<Seq<u8>> {
    seq![
        kv_spec(kw_mute(), bool_str(v.mute)),
        kv_spec(kw_volume(), render_volume_spec(v.volume)),
        header_spec(kw_log()),
        kv_spec(kw_filename_pattern(), quote(fp_str(v.filename_pattern))),
        header_spec(kw_storage()),
        kv_spec(kw_backend(), quote(sb_str(v.storage_backend))),
    ]
}

/// A value every canonical document of which reads back exactly: the volume
/// in range, the language a well-formed tag, and the text fields free of
/// quotes and newlines. A device name holding a quote or a newline is the
/// one kind of value this stability claim must leave out, since the
/// serializer does not escape text.
pub open spec fn roundtrip_safe(v: PrefsV) -> bool {
    &&& v.volume <= FULL_VOLUME
    &&& clean_text(v.language)
    &&& lang_tag_ok(v.language)
    &&& (v.output_device matches Some(d) ==> clean_text(d))
}

#[verifier::rlimit(100)]
proof fn lemma_fold_head(st0: PrefReadV, v: PrefsV)
    requires
        st0.section == Section::Top,
        roundtrip_safe(v),
    ensures
        prefs_fold(st0, head_lines(v)) matches Some(st3) && st3.value == (PrefsV {
            graphics_backend: v.graphics_backend,
            graphics_power_preference: v.graphics_power_preference,
            language: v.language,
            ..st0.value
        }) && st3.warnings == st0.warnings && st3.extras == st0.extras && st3.section
            == Section::Top,
        forall|i: int| 0 <= i < head_lines(v).len() ==> line_ok(#[trigger] head_lines(v)[i]),
{
    lemma_kw_words();
    lemma_value_words(
        v.graphics_backend,
        v.graphics_power_preference,
        v.storage_backend,
        v.filename_pattern,
        v.mute,
    );
    lemma_enum_roundtrips(
        v.graphics_backend,
        v.graphics_power_preference,
        v.storage_backend,
        v.filename_pattern,
        v.mute,
    );
    assert(kw_graphics_backend().len() == 16);
    assert(kw_graphics_power_preference().len() == 25);
    assert(kw_language().len() == 8);
    let l1 = kv_spec(kw_graphics_backend(), quote(gb_str(v.graphics_backend)));
    let l2 = kv_spec(kw_graphics_power_preference(), quote(pp_str(v.graphics_power_preference)));
    let l3 = kv_spec(kw_language(), quote(v.language));
    lemma_quote_edges(gb_str(v.graphics_backend));
    lemma_quote_edges(pp_str(v.graphics_power_preference));
    lemma_quote_edges(v.language);
    assert(clean_text(gb_str(v.graphics_backend)));
    assert(clean_text(pp_str(v.graphics_power_preference)));
    lemma_strip_quoted_id(gb_str(v.graphics_backend));
    lemma_strip_quoted_id(pp_str(v.graphics_power_preference));
    lemma_strip_quoted_id(v.language);
    lemma_classify_kv(kw_graphics_backend(), quote(gb_str(v.graphics_backend)));
    lemma_classify_kv(
        kw_graphics_power_preference(),
        quote(pp_str(v.graphics_power_preference)),
    );
    lemma_classify_kv(kw_language(), quote(v.language));
    assert(line_ok(l1));
    assert(line_ok(l2));
    assert(line_ok(l3));
    let r0 = head_lines(v);
    let r1 = r0.drop_first();
    let r2 = r1.drop_first();
    assert(r1 =~~= seq![l2, l3]);
    assert(r2 =~~= seq![l3]);
    let st1 = prefs_step(st0, l1)->0;
    let st2 = prefs_step(st1, l2)->0;
    let st3 = prefs_step(st2, l3)->0;
    assert(prefs_fold(st0, r0) == prefs_fold(st1, r1));
    assert(prefs_fold(st1, r1) == prefs_fold(st2, r2));
    assert(prefs_fold(st2, r2) == prefs_fold(st3, r2.drop_first()));
    assert(r2.drop_first() =~~= Seq::<Seq<u8>>::empty());
    assert(prefs_fold(st3, r2.drop_first()) == Some(st3));
    assert(st3.value =~~= (PrefsV {
        graphics_backend: v.graphics_backend,
        graphics_power_preference: v.graphics_power_preference,
        language: v.language,
        ..st0.value
    }));
}

#[verifier::rlimit(100)]
proof fn lemma_fold_dev(st: PrefReadV, v: PrefsV)
    requires
        st.section == Section::Top,
        roundtrip_safe(v),
        v.output_device is None ==> st.value.output_device is None,
    ensures
        prefs_fold(st, dev_lines(v)) matches Some(st4) && st4.value == (PrefsV {
            output_device: v.output_device,
            ..st.value
        }) && st4.warnings == st.warnings && st4.extras == st.extras && st4.section
            == Section::Top,
        forall|i: int| 0 <= i < dev_lines(v).len() ==> line_ok(#[trigger] dev_lines(v)[i]),
{
    lemma_kw_words();
    assert(kw_graphics_backend().len() == 16);
    assert(kw_graphics_power_preference().len() == 25);
    assert(kw_language().len() == 8);
    assert(kw_output_device().len() == 13);
    match v.output_device {
        None => {
            assert(prefs_fold(st, dev_lines(v)) == Some(st));
            assert(st.value =~~= (PrefsV { output_device: v.output_device, ..st.value }));
        },
        Some(d) => {
            let l4 = kv_spec(kw_output_device(), quote(d));
            lemma_quote_edges(d);
            lemma_strip_quoted_id(d);
            lemma_classify_kv(kw_output_device(), quote(d));
            assert(line_ok(l4));
            let st4 = prefs_step(st, l4)->0;
            assert(prefs_fold(st, dev_lines(v)) == prefs_fold(st4, dev_lines(v).drop_first()));
            assert(dev_lines(v).drop_first() =~~= Seq::<Seq<u8>>::empty());
            assert(st4.value =~~= (PrefsV { output_device: v.output_device, ..st.value }));
        },
    }
}

#[verifier::rlimit(100)]
proof fn lemma_fold_tail(st: PrefReadV, v: PrefsV)
    requires
        st.section == Section::Top,
        roundtrip_safe(v),
    ensures
        prefs_fold(st, tail_lines(v)) matches Some(st10) && st10.value == (PrefsV {
            mute: v.mute,
            volume: v.volume,
            filename_pattern: v.filename_pattern,
            storage_backend: v.storage_backend,
            ..st.value
        }) && st10.warnings == st.warnings && st10.extras == st.extras,
        forall|i: int| 0 <= i < tail_lines(v).len() ==> line_ok(#[trigger] tail_lines(v)[i]),
{
    lemma_kw_words();
    lemma_value_words(
        v.graphics_backend,
        v.graphics_power_preference,
        v.storage_backend,
        v.filename_pattern,
        v.mute,
    );
    lemma_enum_roundtrips(
        v.graphics_backend,
        v.graphics_power_preference,
        v.storage_backend,
        v.filename_pattern,
        v.mute,
    );
    lemma_volume_roundtrip(v.volume);
    assert(kw_graphics_backend().len() == 16);
    assert(kw_graphics_power_preference().len() == 25);
    assert(kw_language().len() == 8);
    assert(kw_output_device().len() == 13);
    assert(kw_mute().len() == 4);
    assert(kw_volume().len() == 6);
    assert(kw_log().len() == 3);
    assert(kw_storage().len() == 7);
    let l5 = kv_spec(kw_mute(), bool_str(v.mute));
    let l6 = kv_spec(kw_volume(), render_volume_spec(v.volume));
    let l7 = header_spec(kw_log());
    let l8 = kv_spec(kw_filename_pattern(), quote(fp_str(v.filename_pattern)));
    let l9 = header_spec(kw_storage());
    let l10 = kv_spec(kw_backend(), quote(sb_str(v.storage_backend)));
    lemma_quote_edges(fp_str(v.filename_pattern));
    lemma_quote_edges(sb_str(v.storage_backend));
    assert(clean_text(fp_str(v.filename_pattern)));
    assert(clean_text(sb_str(v.storage_backend)));
    lemma_strip_quoted_id(fp_str(v.filename_pattern));
    lemma_strip_quoted_id(sb_str(v.storage_backend));
    assert(forall|i: int| 0 <= i < bool_str(v.mute).len() ==> #[trigger] bool_str(v.mute)[i]
        != 35);
    lemma_strip_bare_id(bool_str(v.mute));
    lemma_classify_kv(kw_mute(), bool_str(v.mute));
    let rv = render_volume_spec(v.volume);
    assert(rv.len() == 5);
    assert(48 <= rv[0] <= 57 && rv[1] == 46 && 48 <= rv[4] <= 57);
    assert(!is_space(rv[0]) && !is_space(rv[4]));
    assert(forall|i: int| 0 <= i < rv.len() ==> #[trigger] rv[i] != 10);
    assert(rv[0] != 34);
    assert(forall|i: int| 0 <= i < rv.len() ==> #[trigger] rv[i] != 35);
    lemma_strip_bare_id(rv);
    lemma_classify_kv(kw_volume(), rv);
    lemma_classify_kv(kw_filename_pattern(), quote(fp_str(v.filename_pattern)));
    lemma_classify_kv(kw_backend(), quote(sb_str(v.storage_backend)));
    lemma_classify_header(kw_log());
    lemma_classify_header(kw_storage());
    assert(line_ok(l5));
    assert(line_ok(l6));
    assert(line_ok(l7));
    assert(line_ok(l8));
    assert(line_ok(l9));
    assert(line_ok(l10));
    let r0 = tail_lines(v);
    let r1 = r0.drop_first();
    let r2 = r1.drop_first();
    let r3 = r2.drop_first();
    let r4 = r3.drop_first();
    let r5 = r4.drop_first();
    assert(r1 =~~= seq![l6, l7, l8, l9, l10]);
    assert(r2 =~~= seq![l7, l8, l9, l10]);
    assert(r3 =~~= seq![l8, l9, l10]);
    assert(r4 =~~= seq![l9, l10]);
    assert(r5 =~~= seq![l10]);
    let st5 = prefs_step(st, l5)->0;
    let st6 = prefs_step(st5, l6)->0;
    let st7 = prefs_step(st6, l7)->0;
    let st8 = prefs_step(st7, l8)->0;
    let st9 = prefs_step(st8, l9)->0;
    let st10 = prefs_step(st9, l10)->0;
    assert(prefs_fold(st, r0) == prefs_fold(st5, r1));
    assert(prefs_fold(st5, r1) == prefs_fold(st6, r2));
    assert(prefs_fold(st6, r2) == prefs_fold(st7, r3));
    assert(prefs_fold(st7, r3) == prefs_fold(st8, r4));
    assert(prefs_fold(st8, r4) == prefs_fold(st9, r5));
    assert(prefs_fold(st9, r5) == prefs_fold(st10, r5.drop_first()));
    assert(r5.drop_first() =~~= Seq::<Seq<u8>>::empty());
    assert(prefs_fold(st10, r5.drop_first()) == Some(st10));
    assert(st10.value =~~= (PrefsV {
        mute: v.mute,
        volume: v.volume,
        filename_pattern: v.filename_pattern,
        storage_backend: v.storage_backend,
        ..st.value
    }));
}

/// Round-trip stability: reading a canonical document back under any fresh
/// defaults recovers exactly the value it was rendered from, with no
/// warnings and nothing left over — so serializing what was read gives the
/// canonical text again, unchanged.
#[verifier::rlimit(100)]
pub proof fn lemma_canonical_roundtrip(dd: PrefsV, v: PrefsV)
    requires
        is_fresh_default(dd),
        roundtrip_safe(v),
    ensures
        read_prefs_spec(render_prefs_spec(v, Seq::<ExtraLineV>::empty()), dd) matches Some(st)
            && st.value == v && st.warnings == Seq::<WarningV>::empty() && st.extras == Seq::<
            ExtraLineV,
        >::empty(),
{
    reveal_with_fuel(extras_in, 2);
    let lines = canonical_lines(v);
    assert(lines =~~= head_lines(v) + dev_lines(v) + tail_lines(v));
    let st0 = prefs_init(dd);
    lemma_fold_head(st0, v);
    let st3 = prefs_fold(st0, head_lines(v))->0;
    lemma_fold_dev(st3, v);
    let st4 = prefs_fold(st3, dev_lines(v))->0;
    lemma_fold_tail(st4, v);
    let st10 = prefs_fold(st4, tail_lines(v))->0;
    crate::read::lemma_prefs_fold_app(st0, head_lines(v), dev_lines(v) + tail_lines(v));
    crate::read::lemma_prefs_fold_app(st3, dev_lines(v), tail_lines(v));
    assert(prefs_fold(st0, head_lines(v) + (dev_lines(v) + tail_lines(v))) == Some(st10));
    assert(head_lines(v) + (dev_lines(v) + tail_lines(v)) =~~= lines);
    assert(prefs_fold(st0, lines) == Some(st10));
    assert(forall|i: int| 0 <= i < lines.len() ==> line_ok(#[trigger] lines[i]));
    lemma_split_join(lines);
    assert(split_lines_spec(render_prefs_spec(v, Seq::<ExtraLineV>::empty())) == lines);
    assert(st10.value =~~= v);
    assert(st10.warnings =~~= Seq::<WarningV>::empty());
    assert(st10.extras =~~= Seq::<ExtraLineV>::empty());
}

/// Round-trip stability at the text level: for a canonical document,
/// serializing what was read gives back the very text.
pub proof fn lemma_serialize_read_stable(dd: PrefsV, v: PrefsV)
    requires
        is_fresh_default(dd),
        roundtrip_safe(v),
    ensures
        ({
            let text = render_prefs_spec(v, Seq::<ExtraLineV>::empty());
            read_prefs_spec(text, dd) matches Some(st) && render_prefs_spec(st.value, st.extras)
                == text
        }),
{
    lemma_canonical_roundtrip(dd, v);
}

} // verus!

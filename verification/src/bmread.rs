use crate::kw::{kw_bookmark, kw_name, kw_url, kwe_bookmark, kwe_name, kwe_url};
use crate::read::{
    classify, classify_line, push_extra, push_warning, DocumentError, LineClass, LineClassE,
    ParseResult,
};
use crate::textutil::{
    bytes_eq, lines_view, split_lines, split_lines_spec,
};
use crate::types::{
    bookmarks_view, extras_view, warnings_view, Bookmark, BookmarkV, Bookmarks, DocumentHolder,
    ExtraLine, ExtraLineV, Section, Warning, WarningKind, WarningV,
};
use crate::values::{is_quoted, parse_quoted, unquote};
use vstd::prelude::*;

verus! {

/// Where the bookmarks reader stands: before the first entry, inside the
/// entries, or inside foreign material.
#[derive(Clone, Copy, Debug, PartialEq, Eq, Structural)]
pub enum BmZone {
    Prelude,
    Entry,
    Other,
}

/// The reader's running state over a bookmarks document.
#[verifier::ext_equal]
pub struct BmReadV {
    pub entries: Seq<BookmarkV>,
    pub warnings: Seq<WarningV>,
    pub extras: Seq<ExtraLineV>,
    pub zone: BmZone,
}

pub open spec fn bm_warn(st: BmReadV, kind: WarningKind, key: Seq<u8>) -> BmReadV {
    BmReadV { warnings: st.warnings.push(WarningV { kind, key }), ..st }
}

pub open spec fn bm_keep(st: BmReadV, sec: Section, l: Seq<u8>) -> BmReadV {
    BmReadV { extras: st.extras.push(ExtraLineV { section: sec, bytes: l }), ..st }
}

/// Which section kept-verbatim bookmark lines are re-emitted in: before the
/// entries if seen there, after them otherwise.
pub open spec fn bm_extra_sec(z: BmZone) -> Section {
    match z {
        BmZone::Prelude => Section::Top,
        BmZone::Entry => Section::Other,
        BmZone::Other => Section::Other,
    }
}

/// The bookmarks reader's step over one line.
pub open spec fn bm_step(st: BmReadV, l: Seq<u8>) -> Option<BmReadV> {
    match classify(l) {
        LineClass::Blank => Some(bm_keep(st, bm_extra_sec(st.zone), l)),
        LineClass::Comment => Some(bm_keep(st, bm_extra_sec(st.zone), l)),
        LineClass::Header(name) => Some(
            bm_keep(
                bm_warn(BmReadV { zone: BmZone::Other, ..st }, WarningKind::UnknownKey, name),
                Section::Other,
                l,
            ),
        ),
        LineClass::ArrayHeader(name) => {
            if name == kw_bookmark() {
                Some(
                    BmReadV {
                        entries: st.entries.push(BookmarkV { url: seq![], name: seq![] }),
                        zone: BmZone::Entry,
                        ..st
                    },
                )
            } else {
                Some(
                    bm_keep(
                        bm_warn(
                            BmReadV { zone: BmZone::Other, ..st },
                            WarningKind::UnknownKey,
                            name,
                        ),
                        Section::Other,
                        l,
                    ),
                )
            }
        },
        LineClass::KeyVal(k, v) => match st.zone {
            BmZone::Prelude => Some(
                bm_keep(bm_warn(st, WarningKind::UnknownKey, k), Section::Top, l),
            ),
            BmZone::Entry => {
                if k == kw_url() {
                    if is_quoted(v) {
                        Some(
                            BmReadV {
                                entries: st.entries.update(
                                    st.entries.len() - 1,
                                    BookmarkV {
                                        url: unquote(v),
                                        ..st.entries[st.entries.len() - 1]
                                    },
                                ),
                                ..st
                            },
                        )
                    } else {
                        Some(bm_warn(st, WarningKind::InvalidValue, k))
                    }
                } else if k == kw_name() {
                    if is_quoted(v) {
                        Some(
                            BmReadV {
                                entries: st.entries.update(
                                    st.entries.len() - 1,
                                    BookmarkV {
                                        name: unquote(v),
                                        ..st.entries[st.entries.len() - 1]
                                    },
                                ),
                                ..st
                            },
                        )
                    } else {
                        Some(bm_warn(st, WarningKind::InvalidValue, k))
                    }
                } else {
                    Some(bm_keep(bm_warn(st, WarningKind::UnknownKey, k), Section::Other, l))
                }
            },
            BmZone::Other => Some(bm_keep(st, Section::Other, l)),
        },
        LineClass::Junk => None,
    }
}

/// The bookmarks reader's start state: no entries, nothing seen.
pub open spec fn bm_init() -> BmReadV {
    BmReadV { entries: seq![], warnings: seq![], extras: seq![], zone: BmZone::Prelude }
}

pub open spec fn bm_fold(st: BmReadV, lines: Seq<Seq<u8>>) -> Option<BmReadV>
    decreases lines.len(),
{
    if lines.len() == 0 {
        Some(st)
    } else {
        match bm_step(st, lines[0]) {
            None => None,
            Some(s2) => bm_fold(s2, lines.drop_first()),
        }
    }
}

/// What reading a bookmarks document yields.
pub open spec fn read_bm_spec(t: Seq<u8>) -> Option<BmReadV> {
    bm_fold(bm_init(), split_lines_spec(t))
}

pub proof fn lemma_bm_fold_app(st: BmReadV, a: Seq<Seq<u8>>, b: Seq<Seq<u8>>)
    ensures
        bm_fold(st, a + b) == match bm_fold(st, a) {
            None => None::<BmReadV>,
            Some(s) => bm_fold(s, b),
        },
    decreases a.len(),
{
    if a.len() == 0 {
        assert(a + b =~= b);
    } else {
        assert((a + b)[0] == a[0]);
        match bm_step(st, a[0]) {
            None => {
                assert(bm_fold(st, a + b) == None::<BmReadV>);
            },
            Some(s2) => {
                assert((a + b).drop_first() =~= a.drop_first() + b);
                lemma_bm_fold_app(s2, a.drop_first(), b);
            },
        }
    }
}

pub open spec fn pack_bm(
    entries: Seq<BookmarkV>,
    warnings: Seq<WarningV>,
    extras: Seq<ExtraLineV>,
    zone: BmZone,
) -> BmReadV {
    BmReadV { entries, warnings, extras, zone }
}

/// A zone inside the entries always has an entry to write into.
pub open spec fn bm_zone_ok(st: BmReadV) -> bool {
    st.zone == BmZone::Entry ==> st.entries.len() > 0
}

pub proof fn lemma_bm_step_zone_ok(st: BmReadV, l: Seq<u8>)
    requires
        bm_zone_ok(st),
        bm_step(st, l) is Some,
    ensures
        bm_zone_ok(bm_step(st, l)->0),
{
}

/// Applies one line to the bookmarks reader's state; `false` marks a
/// structurally unrecognisable line, which leaves the state unchanged.
#[verifier::rlimit(100)]
fn bm_apply_line(
    entries: &mut Bookmarks,
    warnings: &mut Vec<Warning>,
    extras: &mut Vec<ExtraLine>,
    zone: &mut BmZone,
    line: &Vec<u8>,
) -> (ok: bool)
    requires
        *old(zone) == BmZone::Entry ==> old(entries)@.len() > 0,
    ensures
        ({
            let cur = pack_bm(
                bookmarks_view(old(entries)@),
                warnings_view(*old(warnings)),
                extras_view(*old(extras)),
                *old(zone),
            );
            let next = pack_bm(
                bookmarks_view(final(entries)@),
                warnings_view(*final(warnings)),
                extras_view(*final(extras)),
                *final(zone),
            );
            if ok {
                bm_step(cur, line@) == Some(next)
            } else {
                bm_step(cur, line@) == None::<BmReadV>
            }
        }),
{
    let ghost cur = pack_bm(
        bookmarks_view(entries@),
        warnings_view(*warnings),
        extras_view(*extras),
        *zone,
    );
    let ghost lseq = line@;
    let class = classify_line(line);
    match class {
        LineClassE::Blank => {
            let sec = match *zone {
                BmZone::Prelude => Section::Top,
                BmZone::Entry => Section::Other,
                BmZone::Other => Section::Other,
            };
            push_extra(extras, sec, line);
        },
        LineClassE::Comment => {
            let sec = match *zone {
                BmZone::Prelude => Section::Top,
                BmZone::Entry => Section::Other,
                BmZone::Other => Section::Other,
            };
            push_extra(extras, sec, line);
        },
        LineClassE::Header(name) => {
            *zone = BmZone::Other;
            push_warning(warnings, WarningKind::UnknownKey, name);
            push_extra(extras, Section::Other, line);
        },
        LineClassE::ArrayHeader(name) => {
            if bytes_eq(&name, &kwe_bookmark()) {
                *zone = BmZone::Entry;
                entries.push(Bookmark { url: Vec::new(), name: Vec::new() });
                proof {
                    assert(bookmarks_view(entries@) =~~= cur.entries.push(
                        BookmarkV { url: seq![], name: seq![] },
                    ));
                }
            } else {
                *zone = BmZone::Other;
                push_warning(warnings, WarningKind::UnknownKey, name);
                push_extra(extras, Section::Other, line);
            }
        },
        LineClassE::KeyVal(k, v) => {
            match *zone {
                BmZone::Prelude => {
                    push_warning(warnings, WarningKind::UnknownKey, k);
                    push_extra(extras, Section::Top, line);
                },
                BmZone::Entry => {
                    if bytes_eq(&k, &kwe_url()) {
                        let parsed = parse_quoted(&v);
                        match parsed {
                            Some(c) => {
                                let mut e = entries.pop().unwrap();
                                e.url = c;
                                entries.push(e);
                                proof {
                                    assert(bookmarks_view(entries@) =~~= cur.entries.update(
                                        cur.entries.len() - 1,
                                        BookmarkV {
                                            url: unquote(v@),
                                            ..cur.entries[cur.entries.len() - 1]
                                        },
                                    ));
                                }
                            },
                            None => {
                                push_warning(warnings, WarningKind::InvalidValue, k);
                            },
                        }
                    } else if bytes_eq(&k, &kwe_name()) {
                        let parsed = parse_quoted(&v);
                        match parsed {
                            Some(c) => {
                                let mut e = entries.pop().unwrap();
                                e.name = c;
                                entries.push(e);
                                proof {
                                    assert(bookmarks_view(entries@) =~~= cur.entries.update(
                                        cur.entries.len() - 1,
                                        BookmarkV {
                                            name: unquote(v@),
                                            ..cur.entries[cur.entries.len() - 1]
                                        },
                                    ));
                                }
                            },
                            None => {
                                push_warning(warnings, WarningKind::InvalidValue, k);
                            },
                        }
                    } else {
                        push_warning(warnings, WarningKind::UnknownKey, k);
                        push_extra(extras, Section::Other, line);
                    }
                },
                BmZone::Other => {
                    push_extra(extras, Section::Other, line);
                },
            }
        },
        LineClassE::Junk => {
            return false;
        },
    }
    proof {
        assert(bm_step(cur, lseq) matches Some(s2) && s2 =~~= pack_bm(
            bookmarks_view(entries@),
            warnings_view(*warnings),
            extras_view(*extras),
            *zone,
        ));
    }
    true
}

/// Reads a bookmarks document: every `[[bookmark]]` entry in order, each
/// with its quoted `url` and `name`; an invalid value leaves the field empty
/// and records one warning; unknown material is kept verbatim; only a line
/// that is not blank, comment, header or `key = value` fails the read.
pub fn read_bookmarks(text: &Vec<u8>) -> (r: Result<ParseResult<Bookmarks>, DocumentError>)
    ensures
        match r {
            Ok(pr) => read_bm_spec(text@) matches Some(st) && bookmarks_view(pr.result.value@)
                == st.entries && extras_view(pr.result.extras) == st.extras && warnings_view(
                pr.warnings,
            ) == st.warnings,
            Err(_) => read_bm_spec(text@) is None,
        },
{
    let lines = split_lines(text);
    let ghost lv = lines_view(lines@);
    let mut entries: Bookmarks = Vec::new();
    let mut warnings: Vec<Warning> = Vec::new();
    let mut extras: Vec<ExtraLine> = Vec::new();
    let mut zone = BmZone::Prelude;
    let mut i: usize = 0;
    proof {
        assert(lv.subrange(0, 0) =~= Seq::<Seq<u8>>::empty());
        assert(bookmarks_view(entries@) =~= Seq::<BookmarkV>::empty());
        assert(warnings_view(warnings) =~= Seq::<WarningV>::empty());
        assert(extras_view(extras) =~= Seq::<ExtraLineV>::empty());
        assert(bm_fold(bm_init(), lv.subrange(0, 0)) == Some(
            pack_bm(bookmarks_view(entries@), warnings_view(warnings), extras_view(extras), zone),
        ));
    }
    while i < lines.len()
        invariant
            i <= lines@.len(),
            lv == lines_view(lines@),
            lv == split_lines_spec(text@),
            zone == BmZone::Entry ==> entries@.len() > 0,
            bm_fold(bm_init(), lv.subrange(0, i as int)) == Some(
                pack_bm(
                    bookmarks_view(entries@),
                    warnings_view(warnings),
                    extras_view(extras),
                    zone,
                ),
            ),
        decreases lines@.len() - i,
    {
        let line = &lines[i];
        let ghost cur = pack_bm(
            bookmarks_view(entries@),
            warnings_view(warnings),
            extras_view(extras),
            zone,
        );
        let ghost lseq = line@;
        proof {
            assert(lv.subrange(0, i + 1) =~= lv.subrange(0, i as int) + seq![lseq]);
            lemma_bm_fold_app(bm_init(), lv.subrange(0, i as int), seq![lseq]);
            assert(seq![lseq].drop_first() =~= Seq::<Seq<u8>>::empty());
            match bm_step(cur, lseq) {
                None => {},
                Some(s2) => {
                    assert(bm_fold(s2, seq![lseq].drop_first()) == Some(s2));
                },
            }
            assert(bm_fold(cur, seq![lseq]) == bm_step(cur, lseq));
        }
        let ok = bm_apply_line(&mut entries, &mut warnings, &mut extras, &mut zone, line);
        if !ok {
            proof {
                assert(bm_step(cur, lseq) == None::<BmReadV>);
                assert(lv =~= lv.subrange(0, i + 1) + lv.subrange(i + 1, lv.len() as int));
                lemma_bm_fold_app(
                    bm_init(),
                    lv.subrange(0, i + 1),
                    lv.subrange(i + 1, lv.len() as int),
                );
                assert(read_bm_spec(text@) is None);
            }
            return Err(DocumentError { line: i });
        }
        proof {
            lemma_bm_step_zone_ok(cur, lseq);
        }
        i += 1;
    }
    proof {
        assert(lv.subrange(0, lines@.len() as int) =~= lv);
        assert(read_bm_spec(text@) == Some(
            pack_bm(bookmarks_view(entries@), warnings_view(warnings), extras_view(extras), zone),
        ));
    }
    Ok(
        ParseResult {
            result: DocumentHolder { value: entries, extras },
            warnings,
        },
    )
}

} // verus!

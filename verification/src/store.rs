use crate::bmread::{read_bm_spec, read_bookmarks};
use crate::laws::{lemma_canonical_roundtrip, roundtrip_safe};
use crate::locale::lang_tag_ok;
use crate::read::{
    lemma_fold_value_wf, read_preferences_with, read_prefs_spec, DocumentError,
};
use crate::textutil::copy_range;
use crate::types::{
    bookmarks_view, default_preferences, extras_view, is_fresh_default, prefs_text_wf, resolve,
    warnings_view, Bookmarks, BookmarkV, DocumentHolder, ExtraLineV, FilenamePattern,
    GraphicsBackend, LogPreferences, Opt, PowerPreference, PrefsV, SavedGlobalPreferences,
    StorageBackend, StoragePreferences, Warning, WarningV, FULL_VOLUME,
};
use crate::write::{render_bm_spec, render_prefs_spec, BookmarksWriter, PreferencesWriter};
use vstd::prelude::*;

verus! {

/// Relies on core::mem::replace: it stores the given value and returns the
/// one previously there.
pub assume_specification<T>[ core::mem::replace::<T> ](dest: &mut T, src: T) -> (r: T)
    ensures
        *final(dest) == src,
        r == *old(dest),
;

/// What the preference layer of a freshly loaded store must look like,
/// given the optional document text and the fresh defaults `dd`.
pub open spec fn loaded_prefs_ok(
    prefs_text: Option<Vec<u8>>,
    dd: PrefsV,
    p: PrefsV,
    ex: Seq<ExtraLineV>,
    ws: Seq<WarningV>,
) -> bool {
    match prefs_text {
        None => p == dd && ex == Seq::<ExtraLineV>::empty() && ws == Seq::<WarningV>::empty(),
        Some(t) => read_prefs_spec(t@, dd) matches Some(st) && p == st.value && ex == st.extras
            && ws == st.warnings,
    }
}

/// What the bookmark layer of a freshly loaded store must look like.
pub open spec fn loaded_bm_ok(
    bm_text: Option<Vec<u8>>,
    es: Seq<BookmarkV>,
    ex: Seq<ExtraLineV>,
    ws: Seq<WarningV>,
) -> bool {
    match bm_text {
        None => es == Seq::<BookmarkV>::empty() && ex == Seq::<ExtraLineV>::empty() && ws == Seq::<
            WarningV,
        >::empty(),
        Some(t) => read_bm_spec(t@) matches Some(st) && es == st.entries && ex == st.extras && ws
            == st.warnings,
    }
}

/// A placeholder document briefly parked in the store while a writer holds
/// the real one.
fn dummy_prefs_doc() -> (r: DocumentHolder<SavedGlobalPreferences>)
    ensures
        r.value.wf(),
        r.value.text_wf(),
{
    DocumentHolder::fresh(
        SavedGlobalPreferences {
            graphics_backend: GraphicsBackend::Auto,
            graphics_power_preference: PowerPreference::High,
            language: crate::locale::fallback_language(),
            output_device: None,
            mute: false,
            volume: FULL_VOLUME,
            log: LogPreferences { filename_pattern: FilenamePattern::SingleFile },
            storage: StoragePreferences { backend: StorageBackend::Disk },
        },
    )
}

/// The preference store: the per-launch command-line overrides, the
/// persisted preferences document and the persisted bookmarks document.
/// Reads resolve the command line first where a field supports a per-launch
/// override, and the persisted value otherwise; writes go through a scoped
/// writer and hand back the serialized document for the caller to persist.
///
/// The store owns its documents and is mutated through `&mut self`; a host
/// that wants several handles observing the same state must wrap the store
/// in its own shared-ownership cell, where the original kept that sharing
/// inside the type.
pub struct GlobalPreferences {
    /// The per-launch overrides; read-only for the life of the store.
    pub cli: Opt,
    preferences: DocumentHolder<SavedGlobalPreferences>,
    bookmarks: DocumentHolder<Bookmarks>,
}

impl GlobalPreferences {
    /// The per-launch overrides, as contracts see them.
    pub closed spec fn cli_view(&self) -> Opt {
        self.cli
    }

    /// The persisted preference fields.
    pub closed spec fn prefs(&self) -> PrefsV {
        self.preferences.value@
    }

    /// The unrecognised lines of the preferences document.
    pub closed spec fn prefs_extras(&self) -> Seq<ExtraLineV> {
        extras_view(self.preferences.extras)
    }

    /// The persisted bookmarks, in order.
    pub closed spec fn bm(&self) -> Seq<BookmarkV> {
        bookmarks_view(self.bookmarks.value@)
    }

    /// The unrecognised lines of the bookmarks document.
    pub closed spec fn bm_extras(&self) -> Seq<ExtraLineV> {
        extras_view(self.bookmarks.extras)
    }

    /// The store is well formed: the persisted volume and every supplied
    /// override are in range, and the persisted text fields can stand in a
    /// serialized document.
    pub closed spec fn wf(&self) -> bool {
        self.preferences.value.wf() && self.preferences.value.text_wf() && self.cli.wf()
    }

    /// What well-formedness gives a caller.
    pub proof fn lemma_wf(&self)
        requires
            self.wf(),
        ensures
            self.prefs().volume <= FULL_VOLUME,
            prefs_text_wf(self.prefs()),
            self.cli_view().wf(),
    {
    }

    /// Builds the store from the command-line overrides and the raw text of
    /// whichever documents were present on disk; an absent document means
    /// compiled-in defaults. The returned warnings are the readers', the
    /// preference document's first, then the bookmark document's; the caller
    /// decides where to log them. Only a structurally unreadable document
    /// fails the load.
    pub fn load(cli: Opt, prefs_text: Option<Vec<u8>>, bookmarks_text: Option<Vec<u8>>) -> (r:
        Result<(GlobalPreferences, Vec<Warning>), DocumentError>)
        requires
            cli.wf(),
        ensures
            match r {
                Ok(sw) => sw.0.cli_view() == cli && sw.0.wf() && exists|
                    dd: PrefsV,
                    pws: Seq<WarningV>,
                    bws: Seq<WarningV>,
                |
                    {
                        &&& #[trigger] loaded_prefs_ok(
                            prefs_text,
                            dd,
                            sw.0.prefs(),
                            sw.0.prefs_extras(),
                            pws,
                        )
                        &&& #[trigger] loaded_bm_ok(
                            bookmarks_text,
                            sw.0.bm(),
                            sw.0.bm_extras(),
                            bws,
                        )
                        &&& is_fresh_default(dd)
                        &&& warnings_view(sw.1) == pws + bws
                    },
                Err(_) => (exists|dd: PrefsV|
                    #[trigger] is_fresh_default(dd) && (prefs_text matches Some(t)
                        && read_prefs_spec(t@, dd) is None)) || (bookmarks_text matches Some(t)
                    && read_bm_spec(t@) is None),
            },
    {
        let defaults = default_preferences();
        let ghost dd = defaults@;
        let mut warnings: Vec<Warning> = Vec::new();
        let ghost pws: Seq<WarningV>;
        let prefs_doc: DocumentHolder<SavedGlobalPreferences>;
        match &prefs_text {
            None => {
                prefs_doc = DocumentHolder::fresh(defaults);
                proof {
                    pws = Seq::<WarningV>::empty();
                    assert(extras_view(prefs_doc.extras) =~= Seq::<ExtraLineV>::empty());
                }
            },
            Some(t) => {
                match read_preferences_with(t, defaults) {
                    Ok(pr) => {
                        prefs_doc = pr.result;
                        let mut pw = pr.warnings;
                        proof {
                            pws = warnings_view(pw);
                            lemma_fold_value_wf(
                                crate::read::prefs_init(dd),
                                crate::textutil::split_lines_spec(t@),
                            );
                        }
                        warnings.append(&mut pw);
                    },
                    Err(e) => {
                        return Err(e);
                    },
                }
            },
        }
        let bm_doc: DocumentHolder<Bookmarks>;
        let ghost bws: Seq<WarningV>;
        match &bookmarks_text {
            None => {
                bm_doc = DocumentHolder::fresh(Vec::new());
                proof {
                    bws = Seq::<WarningV>::empty();
                    assert(bookmarks_view(bm_doc.value@) =~= Seq::<BookmarkV>::empty());
                    assert(extras_view(bm_doc.extras) =~= Seq::<ExtraLineV>::empty());
                }
            },
            Some(t) => {
                match read_bookmarks(t) {
                    Ok(pr) => {
                        bm_doc = pr.result;
                        let mut bw = pr.warnings;
                        proof {
                            bws = warnings_view(bw);
                        }
                        warnings.append(&mut bw);
                    },
                    Err(e) => {
                        return Err(e);
                    },
                }
            },
        }
        let store = GlobalPreferences { cli, preferences: prefs_doc, bookmarks: bm_doc };
        proof {
            assert(warnings_view(warnings) =~~= pws + bws);
            assert(loaded_prefs_ok(prefs_text, dd, store.prefs(), store.prefs_extras(), pws));
            assert(loaded_bm_ok(bookmarks_text, store.bm(), store.bm_extras(), bws));
        }
        Ok((store, warnings))
    }

    /// The graphics backend to use: the command-line override if one was
    /// given, the persisted choice otherwise.
    pub fn graphics_backends(&self) -> (r: GraphicsBackend)
        ensures
            r == resolve(self.cli_view().graphics, self.prefs().graphics_backend),
    {
        match self.cli.graphics {
            Some(g) => g,
            None => self.preferences.value.graphics_backend,
        }
    }

    /// The power preference to use: the command-line override if one was
    /// given, the persisted choice otherwise.
    pub fn graphics_power_preference(&self) -> (r: PowerPreference)
        ensures
            r == resolve(self.cli_view().power, self.prefs().graphics_power_preference),
    {
        match self.cli.power {
            Some(p) => p,
            None => self.preferences.value.graphics_power_preference,
        }
    }

    /// The output volume to use, in thousandths of full volume: the
    /// command-line override if one was given, the persisted value
    /// otherwise.
    pub fn preferred_volume(&self) -> (r: u32)
        ensures
            r == resolve(self.cli_view().volume, self.prefs().volume),
    {
        match self.cli.volume {
            Some(v) => v,
            None => self.preferences.value.volume,
        }
    }

    /// The storage backend to use: the command-line override if one was
    /// given, the persisted choice otherwise.
    pub fn storage_backend(&self) -> (r: StorageBackend)
        ensures
            r == resolve(self.cli_view().storage, self.prefs().storage_backend),
    {
        match self.cli.storage {
            Some(s) => s,
            None => self.preferences.value.storage.backend,
        }
    }

    /// The interface language: always the persisted value; the command line
    /// cannot override it.
    pub fn language(&self) -> (r: Vec<u8>)
        ensures
            r@ == self.prefs().language,
    {
        copy_range(
            &self.preferences.value.language,
            0,
            self.preferences.value.language.len(),
        )
    }

    /// The named audio output device, or `None` for the system default:
    /// always the persisted value.
    pub fn output_device_name(&self) -> (r: Option<Vec<u8>>)
        ensures
            match r {
                Some(d) => self.prefs().output_device == Some(d@),
                None => self.prefs().output_device is None,
            },
    {
        match &self.preferences.value.output_device {
            Some(d) => Some(copy_range(d, 0, d.len())),
            None => None,
        }
    }

    /// Whether audio is muted: always the persisted value.
    pub fn mute(&self) -> (r: bool)
        ensures
            r == self.prefs().mute,
    {
        self.preferences.value.mute
    }

    /// How log files are named: always the persisted value.
    pub fn log_filename_pattern(&self) -> (r: FilenamePattern)
        ensures
            r == self.prefs().filename_pattern,
    {
        self.preferences.value.log.filename_pattern
    }

    /// Borrows the bookmark list for reading.
    pub fn bookmarks(&self) -> (r: &Bookmarks)
        ensures
            bookmarks_view(r@) == self.bm(),
    {
        &self.bookmarks.value
    }

    /// Whether there is at least one usable bookmark: the list is non-empty
    /// and not every entry is invalid.
    pub fn have_bookmarks(&self) -> (r: bool)
        ensures
            r == crate::types::spec_have_bookmarks(self.bm()),
    {
        let bm = &self.bookmarks.value;
        if bm.len() == 0 {
            return false;
        }
        let mut i: usize = 0;
        proof {
            assert(bookmarks_view(bm@) == self.bm());
        }
        while i < bm.len()
            invariant
                i <= bm@.len(),
                bookmarks_view(bm@) == self.bm(),
                self.bm().len() == bm@.len(),
                forall|j: int| 0 <= j < i ==> (#[trigger] bookmarks_view(bm@)[j]).spec_is_invalid(),
            decreases bm@.len() - i,
        {
            if !bm[i].is_invalid() {
                proof {
                    assert(self.bm()[i as int] == bm@[i as int]@);
                    assert(!self.bm()[i as int].spec_is_invalid());
                    assert(crate::types::spec_have_bookmarks(self.bm()));
                }
                return true;
            }
            i += 1;
        }
        proof {
            assert(forall|j: int| 0 <= j < self.bm().len() ==> (#[trigger] self.bm()[j]).spec_is_invalid());
        }
        false
    }

    /// Round-trip stability for the store: a well-formed store whose
    /// preference document was fully recognised (no kept-verbatim lines)
    /// serializes to text that reads back, under any fresh defaults, to
    /// exactly the same preferences — so a persisted write survives a
    /// reload intact. The one state left out is a store whose language is
    /// the compiled-in fallback tag: the fallback is well formed in fact,
    /// but no contract of the outside language parser states it, so it
    /// cannot be assumed here.
    pub proof fn lemma_reload_stable(&self, dd: PrefsV)
        requires
            self.wf(),
            self.prefs_extras() == Seq::<ExtraLineV>::empty(),
            lang_tag_ok(self.prefs().language),
            is_fresh_default(dd),
        ensures
            read_prefs_spec(
                render_prefs_spec(self.prefs(), self.prefs_extras()),
                dd,
            ) matches Some(st) && st.value == self.prefs() && st.extras == Seq::<
                ExtraLineV,
            >::empty() && st.warnings == Seq::<WarningV>::empty(),
    {
        assert(roundtrip_safe(self.prefs()));
        lemma_canonical_roundtrip(dd, self.prefs());
    }

    /// Runs the caller's mutation on a scoped preferences writer, installs
    /// the mutated document, and returns its serialized text for the caller
    /// to persist. The mutation is kept even if the caller then fails to
    /// persist the text.
    pub fn write_preferences<F: FnOnce(PreferencesWriter) -> PreferencesWriter>(
        &mut self,
        fun: F,
    ) -> (out: Vec<u8>)
        requires
            forall|w: PreferencesWriter| #[trigger] call_requires(fun, (w,)),
            old(self).wf(),
        ensures
            exists|w1: PreferencesWriter, w2: PreferencesWriter|
                {
                    &&& #[trigger] call_ensures(fun, (w1,), w2)
                    &&& w1.prefs() == old(self).prefs()
                    &&& w1.prefs_extras() == old(self).prefs_extras()
                    &&& final(self).prefs() == w2.prefs()
                    &&& final(self).prefs_extras() == w2.prefs_extras()
                    &&& out@ == render_prefs_spec(w2.prefs(), w2.prefs_extras())
                },
            final(self).cli_view() == old(self).cli_view(),
            final(self).bm() == old(self).bm(),
            final(self).bm_extras() == old(self).bm_extras(),
            final(self).wf(),
    {
        let doc = core::mem::replace(&mut self.preferences, dummy_prefs_doc());
        let w1 = PreferencesWriter::new(doc);
        let ghost w1g = w1;
        let w2 = fun(w1);
        proof {
            assert(call_ensures(fun, (w1g,), w2));
        }
        let doc2 = w2.into_doc();
        let out = doc2.serialize();
        let _ = core::mem::replace(&mut self.preferences, doc2);
        out
    }

    /// Runs the caller's mutation on a scoped bookmarks writer, installs
    /// the mutated document, and returns its serialized text for the caller
    /// to persist. The mutation is kept even if the caller then fails to
    /// persist the text.
    pub fn write_bookmarks<F: FnOnce(BookmarksWriter) -> BookmarksWriter>(&mut self, fun: F) -> (out:
        Vec<u8>)
        requires
            forall|w: BookmarksWriter| #[trigger] call_requires(fun, (w,)),
        ensures
            exists|w1: BookmarksWriter, w2: BookmarksWriter|
                {
                    &&& #[trigger] call_ensures(fun, (w1,), w2)
                    &&& w1.entries() == old(self).bm()
                    &&& w1.bm_extras() == old(self).bm_extras()
                    &&& final(self).bm() == w2.entries()
                    &&& final(self).bm_extras() == w2.bm_extras()
                    &&& out@ == render_bm_spec(w2.entries(), w2.bm_extras())
                },
            final(self).cli_view() == old(self).cli_view(),
            final(self).prefs() == old(self).prefs(),
            final(self).prefs_extras() == old(self).prefs_extras(),
            final(self).wf() == old(self).wf(),
    {
        let doc = core::mem::replace(&mut self.bookmarks, DocumentHolder::fresh(Vec::new()));
        let w1 = BookmarksWriter::new(doc);
        let ghost w1g = w1;
        let w2 = fun(w1);
        proof {
            assert(call_ensures(fun, (w1g,), w2));
        }
        let doc2 = w2.into_doc();
        let out = doc2.serialize();
        let _ = core::mem::replace(&mut self.bookmarks, doc2);
        out
    }

    /// Serializes the current preferences document without mutating it.
    pub fn serialize_preferences(&self) -> (out: Vec<u8>)
        requires
            self.wf(),
        ensures
            out@ == render_prefs_spec(self.prefs(), self.prefs_extras()),
    {
        self.preferences.serialize()
    }

    /// Serializes the current bookmarks document without mutating it.
    pub fn serialize_bookmarks(&self) -> (out: Vec<u8>)
        ensures
            out@ == render_bm_spec(self.bm(), self.bm_extras()),
    {
        self.bookmarks.serialize()
    }
}

} // verus!

//! The durable settings store: the user's appearance and file-opening
//! preferences, replaced wholesale when edited and written back at once.

use vstd::prelude::*;
use crate::codec::{
    lemma_dec_enc_flag, lemma_dec_enc_str, lemma_dec_enc_u64, read_flag, read_str, read_u64,
    spec_dec_flag, spec_dec_str, spec_dec_u64, spec_enc_flag, spec_enc_str, spec_enc_u64,
    str_fits, write_flag, write_str, write_u64,
};
use crate::text::str_eq;

verus! {

/// IEEE-754 bit pattern of the default font size, 28 points.
pub const DEFAULT_FONT_SIZE_BITS: u64 = 0x403C_0000_0000_0000;

/// IEEE-754 bit pattern of the default automatic scroll speed, 3.8 lines.
pub const DEFAULT_AUTO_SCROLL_SPEED_BITS: u64 = 0x400E_6666_6666_6666;

/// The colour theme of the reader window.
#[derive(Debug, Clone, Copy, PartialEq, Eq, Structural)]
pub enum Theme {
    Unthemed,
    Sepia,
    Dark,
    Light,
}

/// The wire tag of a theme.
pub open spec fn theme_tag(t: Theme) -> u8 {
    match t {
        Theme::Unthemed => 0u8,
        Theme::Sepia => 1u8,
        Theme::Dark => 2u8,
        Theme::Light => 3u8,
    }
}

/// A theme on the wire: its one tag byte.
pub open spec fn spec_enc_theme(t: Theme) -> Seq<u8> {
    seq![theme_tag(t)]
}

/// Reads a theme from the front of `b`; an unknown tag is a malformed store.
pub open spec fn spec_dec_theme(b: Seq<u8>) -> Option<(Theme, Seq<u8>)> {
    if b.len() >= 1 && b[0] <= 3 {
        let t = if b[0] == 0 {
            Theme::Unthemed
        } else if b[0] == 1 {
            Theme::Sepia
        } else if b[0] == 2 {
            Theme::Dark
        } else {
            Theme::Light
        };
        Option::Some((t, b.skip(1)))
    } else {
        Option::None
    }
}

/// Decoding an encoded theme yields it back and consumes its byte.
pub proof fn lemma_dec_enc_theme(t: Theme, rest: Seq<u8>)
    ensures
        spec_dec_theme(spec_enc_theme(t) + rest) == Option::Some((t, rest)),
{
    assert((spec_enc_theme(t) + rest).skip(1) =~= rest);
}

impl Theme {
    /// The name of the theme, as shown in the settings dialog.
    pub fn as_str(&self) -> (r: &'static str)
        ensures
            r@ == match *self {
                Theme::Unthemed => "none"@,
                Theme::Sepia => "sepia"@,
                Theme::Dark => "dark"@,
                Theme::Light => "light"@,
            },
    {
        match *self {
            Theme::Unthemed => "none",
            Theme::Sepia => "sepia",
            Theme::Dark => "dark",
            Theme::Light => "light",
        }
    }

    /// Reads a theme from its name; any other name is rejected.
    pub fn from_name(s: &str) -> (r: Option<Theme>)
        ensures
            ({
                if s@ == "none"@ {
                    r == Option::Some(Theme::Unthemed)
                } else if s@ == "sepia"@ {
                    r == Option::Some(Theme::Sepia)
                } else if s@ == "dark"@ {
                    r == Option::Some(Theme::Dark)
                } else if s@ == "light"@ {
                    r == Option::Some(Theme::Light)
                } else {
                    r is None
                }
            }),
    {
        if str_eq(s, "none") {
            Option::Some(Theme::Unthemed)
        } else if str_eq(s, "sepia") {
            Option::Some(Theme::Sepia)
        } else if str_eq(s, "dark") {
            Option::Some(Theme::Dark)
        } else if str_eq(s, "light") {
            Option::Some(Theme::Light)
        } else {
            Option::None
        }
    }
}

/// Where to resume when a document that has a saved page is reopened: at
/// the saved chapter itself, or one chapter past it.
#[derive(Debug, Clone, Copy, PartialEq, Eq, Structural)]
pub enum FileOpenPreference {
    CurrentChapter,
    NextChapter,
}

/// The wire tag of an open preference.
pub open spec fn pref_tag(p: FileOpenPreference) -> u8 {
    match p {
        FileOpenPreference::CurrentChapter => 0u8,
        FileOpenPreference::NextChapter => 1u8,
    }
}

/// An open preference on the wire: its one tag byte.
pub open spec fn spec_enc_pref(p: FileOpenPreference) -> Seq<u8> {
    seq![pref_tag(p)]
}

/// Reads an open preference from the front of `b`.
pub open spec fn spec_dec_pref(b: Seq<u8>) -> Option<(FileOpenPreference, Seq<u8>)> {
    if b.len() >= 1 && b[0] <= 1 {
        let p = if b[0] == 0 {
            FileOpenPreference::CurrentChapter
        } else {
            FileOpenPreference::NextChapter
        };
        Option::Some((p, b.skip(1)))
    } else {
        Option::None
    }
}

/// Decoding an encoded preference yields it back and consumes its byte.
pub proof fn lemma_dec_enc_pref(p: FileOpenPreference, rest: Seq<u8>)
    ensures
        spec_dec_pref(spec_enc_pref(p) + rest) == Option::Some((p, rest)),
{
    assert((spec_enc_pref(p) + rest).skip(1) =~= rest);
}

impl FileOpenPreference {
    /// The number of chapters to move past the saved page on reopening.
    pub fn to_usize(&self) -> (r: usize)
        ensures
            r == match *self {
                FileOpenPreference::CurrentChapter => 0usize,
                FileOpenPreference::NextChapter => 1usize,
            },
    {
        match *self {
            FileOpenPreference::CurrentChapter => 0,
            FileOpenPreference::NextChapter => 1,
        }
    }

    /// The name of the preference, as shown in the settings dialog.
    pub fn as_str(&self) -> (r: &'static str)
        ensures
            r@ == match *self {
                FileOpenPreference::CurrentChapter => "current"@,
                FileOpenPreference::NextChapter => "next"@,
            },
    {
        match *self {
            FileOpenPreference::CurrentChapter => "current",
            FileOpenPreference::NextChapter => "next",
        }
    }

    /// Reads a preference from its name; any other name is rejected.
    pub fn from_name(s: &str) -> (r: Option<FileOpenPreference>)
        ensures
            ({
                if s@ == "current"@ {
                    r == Option::Some(FileOpenPreference::CurrentChapter)
                } else if s@ == "next"@ {
                    r == Option::Some(FileOpenPreference::NextChapter)
                } else {
                    r is None
                }
            }),
    {
        if str_eq(s, "current") {
            Option::Some(FileOpenPreference::CurrentChapter)
        } else if str_eq(s, "next") {
            Option::Some(FileOpenPreference::NextChapter)
        } else {
            Option::None
        }
    }
}

/// Appearance settings. The font size and the automatic scroll speed are
/// carried as the bit patterns of the 64-bit floating-point numbers the
/// presentation layer works with; this core only stores and compares them.
#[derive(Debug, Clone, PartialEq)]
pub struct GeneralSettings {
    pub theme: Theme,
    pub font_size_bits: u64,
    pub font_family: String,
    pub use_custom_color: bool,
    pub background_color: String,
    pub text_color: String,
    pub auto_scroll_speed_bits: u64,
    pub show_page_num: bool,
    pub show_page_file: bool,
}

/// Appearance settings as pure data.
pub struct GeneralData {
    pub theme: Theme,
    pub font_size_bits: u64,
    pub font_family: Seq<char>,
    pub use_custom_color: bool,
    pub background_color: Seq<char>,
    pub text_color: Seq<char>,
    pub auto_scroll_speed_bits: u64,
    pub show_page_num: bool,
    pub show_page_file: bool,
}

impl View for GeneralSettings {
    type V = GeneralData;

    open spec fn view(&self) -> GeneralData {
        GeneralData {
            theme: self.theme,
            font_size_bits: self.font_size_bits,
            font_family: self.font_family@,
            use_custom_color: self.use_custom_color,
            background_color: self.background_color@,
            text_color: self.text_color@,
            auto_scroll_speed_bits: self.auto_scroll_speed_bits,
            show_page_num: self.show_page_num,
            show_page_file: self.show_page_file,
        }
    }
}

/// The appearance settings of a first run.
pub open spec fn spec_default_general() -> GeneralData {
    GeneralData {
        theme: Theme::Sepia,
        font_size_bits: DEFAULT_FONT_SIZE_BITS,
        font_family: "Segoe UI"@,
        use_custom_color: false,
        background_color: "#000000"@,
        text_color: "#000000"@,
        auto_scroll_speed_bits: DEFAULT_AUTO_SCROLL_SPEED_BITS,
        show_page_num: true,
        show_page_file: true,
    }
}

impl GeneralSettings {
    /// The appearance settings of a first run.
    pub fn new() -> (r: GeneralSettings)
        ensures
            r@ == spec_default_general(),
    {
        GeneralSettings {
            theme: Theme::Sepia,
            font_size_bits: DEFAULT_FONT_SIZE_BITS,
            font_family: "Segoe UI".to_owned(),
            use_custom_color: false,
            background_color: "#000000".to_owned(),
            text_color: "#000000".to_owned(),
            auto_scroll_speed_bits: DEFAULT_AUTO_SCROLL_SPEED_BITS,
            show_page_num: true,
            show_page_file: true,
        }
    }
}

/// File-handling settings.
#[derive(Debug, Clone, PartialEq)]
pub struct FileSettings {
    pub file_open_preference: FileOpenPreference,
}

impl FileSettings {
    /// The file-handling settings of a first run: reopening a document
    /// resumes one chapter past the saved one.
    pub fn new() -> (r: FileSettings)
        ensures
            r.file_open_preference == FileOpenPreference::NextChapter,
    {
        FileSettings { file_open_preference: FileOpenPreference::NextChapter }
    }
}

/// The whole settings record: appearance, file handling, and the location
/// of the backing file.
#[derive(Debug, Clone, PartialEq)]
pub struct Settings {
    pub general: GeneralSettings,
    pub file: FileSettings,
    pub path: String,
}

/// The whole settings record as pure data.
pub struct SettingsData {
    pub general: GeneralData,
    pub file_open_preference: FileOpenPreference,
    pub path: Seq<char>,
}

impl View for Settings {
    type V = SettingsData;

    open spec fn view(&self) -> SettingsData {
        SettingsData {
            general: self.general@,
            file_open_preference: self.file.file_open_preference,
            path: self.path@,
        }
    }
}

/// The settings of a first run, backed by the given file location.
pub open spec fn spec_default_settings(path: Seq<char>) -> SettingsData {
    SettingsData {
        general: spec_default_general(),
        file_open_preference: FileOpenPreference::NextChapter,
        path: path,
    }
}

/// Appearance settings on the wire, field by field.
pub open spec fn spec_enc_general(g: GeneralData) -> Seq<u8> {
    spec_enc_theme(g.theme) + (spec_enc_u64(g.font_size_bits) + (spec_enc_str(g.font_family) + (
    spec_enc_flag(g.use_custom_color) + (spec_enc_str(g.background_color) + (spec_enc_str(
        g.text_color,
    ) + (spec_enc_u64(g.auto_scroll_speed_bits) + (spec_enc_flag(g.show_page_num) + spec_enc_flag(
        g.show_page_file,
    ))))))))
}

/// The whole settings record on the wire.
pub open spec fn spec_enc_settings(s: SettingsData) -> Seq<u8> {
    spec_enc_general(s.general) + (spec_enc_pref(s.file_open_preference) + spec_enc_str(s.path))
}

/// Whether the record's strings are short enough for their length
/// prefixes; true of every record held in memory.
pub open spec fn settings_fit(s: SettingsData) -> bool {
    str_fits(s.general.font_family) && str_fits(s.general.background_color) && str_fits(
        s.general.text_color,
    ) && str_fits(s.path)
}

/// Reads appearance settings from the front of `b`.
pub open spec fn spec_dec_general(b: Seq<u8>) -> Option<(GeneralData, Seq<u8>)> {
    match spec_dec_theme(b) {
        Option::None => Option::None,
        Option::Some((theme, b1)) => match spec_dec_u64(b1) {
            Option::None => Option::None,
            Option::Some((font_size_bits, b2)) => match spec_dec_str(b2) {
                Option::None => Option::None,
                Option::Some((font_family, b3)) => match spec_dec_flag(b3) {
                    Option::None => Option::None,
                    Option::Some((use_custom_color, b4)) => match spec_dec_str(b4) {
                        Option::None => Option::None,
                        Option::Some((background_color, b5)) => match spec_dec_str(b5) {
                            Option::None => Option::None,
                            Option::Some((text_color, b6)) => match spec_dec_u64(b6) {
                                Option::None => Option::None,
                                Option::Some((auto_scroll_speed_bits, b7)) => match spec_dec_flag(
                                    b7,
                                ) {
                                    Option::None => Option::None,
                                    Option::Some((show_page_num, b8)) => match spec_dec_flag(b8) {
                                        Option::None => Option::None,
                                        Option::Some((show_page_file, b9)) => Option::Some(
                                            (
                                                GeneralData {
                                                    theme,
                                                    font_size_bits,
                                                    font_family,
                                                    use_custom_color,
                                                    background_color,
                                                    text_color,
                                                    auto_scroll_speed_bits,
                                                    show_page_num,
                                                    show_page_file,
                                                },
                                                b9,
                                            ),
                                        ),
                                    },
                                },
                            },
                        },
                    },
                },
            },
        },
    }
}

/// Reads a whole settings record: appearance, preference, the backing
/// location, and nothing after.
pub open spec fn spec_dec_settings(b: Seq<u8>) -> Option<SettingsData> {
    match spec_dec_general(b) {
        Option::None => Option::None,
        Option::Some((general, b1)) => match spec_dec_pref(b1) {
            Option::None => Option::None,
            Option::Some((file_open_preference, b2)) => match spec_dec_str(b2) {
                Option::None => Option::None,
                Option::Some((path, b3)) => if b3.len() == 0 {
                    Option::Some(SettingsData { general, file_open_preference, path })
                } else {
                    Option::None
                },
            },
        },
    }
}

/// Decoding encoded appearance settings yields them back.
#[verifier::rlimit(50)]
pub proof fn lemma_dec_enc_general(g: GeneralData, rest: Seq<u8>)
    requires
        str_fits(g.font_family),
        str_fits(g.background_color),
        str_fits(g.text_color),
    ensures
        spec_dec_general(spec_enc_general(g) + rest) == Option::Some((g, rest)),
{
    let t8 = spec_enc_flag(g.show_page_file) + rest;
    let t7 = spec_enc_flag(g.show_page_num) + t8;
    let t6 = spec_enc_u64(g.auto_scroll_speed_bits) + t7;
    let t5 = spec_enc_str(g.text_color) + t6;
    let t4 = spec_enc_str(g.background_color) + t5;
    let t3 = spec_enc_flag(g.use_custom_color) + t4;
    let t2 = spec_enc_str(g.font_family) + t3;
    let t1 = spec_enc_u64(g.font_size_bits) + t2;
    assert(spec_enc_general(g) + rest =~= spec_enc_theme(g.theme) + t1);
    lemma_dec_enc_theme(g.theme, t1);
    assert(spec_dec_theme(spec_enc_general(g) + rest) == Option::Some((g.theme, t1)));
    lemma_dec_enc_u64(g.font_size_bits, t2);
    assert(spec_dec_u64(t1) == Option::Some((g.font_size_bits, t2)));
    lemma_dec_enc_str(g.font_family, t3);
    assert(spec_dec_str(t2) == Option::Some((g.font_family, t3)));
    lemma_dec_enc_flag(g.use_custom_color, t4);
    assert(spec_dec_flag(t3) == Option::Some((g.use_custom_color, t4)));
    lemma_dec_enc_str(g.background_color, t5);
    assert(spec_dec_str(t4) == Option::Some((g.background_color, t5)));
    lemma_dec_enc_str(g.text_color, t6);
    assert(spec_dec_str(t5) == Option::Some((g.text_color, t6)));
    lemma_dec_enc_u64(g.auto_scroll_speed_bits, t7);
    assert(spec_dec_u64(t6) == Option::Some((g.auto_scroll_speed_bits, t7)));
    lemma_dec_enc_flag(g.show_page_num, t8);
    assert(spec_dec_flag(t7) == Option::Some((g.show_page_num, t8)));
    lemma_dec_enc_flag(g.show_page_file, rest);
    assert(spec_dec_flag(t8) == Option::Some((g.show_page_file, rest)));
}

/// The round trip of the settings store: a record written with `write`
/// reads back as exactly the same record.
pub proof fn lemma_settings_round_trip(s: SettingsData)
    requires
        settings_fit(s),
    ensures
        spec_dec_settings(spec_enc_settings(s)) == Option::Some(s),
{
    let t2 = spec_enc_str(s.path) + Seq::<u8>::empty();
    let t1 = spec_enc_pref(s.file_open_preference) + t2;
    assert(spec_enc_settings(s) =~= spec_enc_general(s.general) + t1);
    lemma_dec_enc_general(s.general, t1);
    lemma_dec_enc_pref(s.file_open_preference, t2);
    lemma_dec_enc_str(s.path, Seq::<u8>::empty());
}

/// Writes a theme tag.
fn write_theme(out: &mut Vec<u8>, t: &Theme)
    ensures
        final(out)@ == old(out)@ + spec_enc_theme(*t),
{
    let tag: u8 = match *t {
        Theme::Unthemed => 0,
        Theme::Sepia => 1,
        Theme::Dark => 2,
        Theme::Light => 3,
    };
    out.push(tag);
    proof {
        assert(out@ =~= old(out)@ + spec_enc_theme(*t));
    }
}

/// Reads a theme tag at `pos`; agrees with the specification decoder.
fn read_theme(b: &[u8], pos: usize) -> (r: Option<(Theme, usize)>)
    requires
        pos <= b@.len(),
    ensures
        ({
            let t = spec_dec_theme(b@.skip(pos as int));
            match r {
                Option::Some(p) => pos <= p.1 <= b@.len() && t == Option::Some((
                    p.0,
                    b@.skip(p.1 as int),
                )),
                Option::None => t is None,
            }
        }),
{
    if b.len() - pos >= 1 {
        let byte = *vstd::slice::slice_index_get(b, pos);
        proof {
            assert(b@.skip(pos as int)[0] == b@[pos as int]);
            assert(b@.skip(pos as int).skip(1) =~= b@.skip(pos as int + 1));
        }
        if byte == 0 {
            Option::Some((Theme::Unthemed, pos + 1))
        } else if byte == 1 {
            Option::Some((Theme::Sepia, pos + 1))
        } else if byte == 2 {
            Option::Some((Theme::Dark, pos + 1))
        } else if byte == 3 {
            Option::Some((Theme::Light, pos + 1))
        } else {
            Option::None
        }
    } else {
        Option::None
    }
}

/// Writes a preference tag.
fn write_pref(out: &mut Vec<u8>, p: &FileOpenPreference)
    ensures
        final(out)@ == old(out)@ + spec_enc_pref(*p),
{
    let tag: u8 = match *p {
        FileOpenPreference::CurrentChapter => 0,
        FileOpenPreference::NextChapter => 1,
    };
    out.push(tag);
    proof {
        assert(out@ =~= old(out)@ + spec_enc_pref(*p));
    }
}

/// Reads a preference tag at `pos`; agrees with the specification decoder.
fn read_pref(b: &[u8], pos: usize) -> (r: Option<(FileOpenPreference, usize)>)
    requires
        pos <= b@.len(),
    ensures
        ({
            let t = spec_dec_pref(b@.skip(pos as int));
            match r {
                Option::Some(p) => pos <= p.1 <= b@.len() && t == Option::Some((
                    p.0,
                    b@.skip(p.1 as int),
                )),
                Option::None => t is None,
            }
        }),
{
    if b.len() - pos >= 1 {
        let byte = *vstd::slice::slice_index_get(b, pos);
        proof {
            assert(b@.skip(pos as int)[0] == b@[pos as int]);
            assert(b@.skip(pos as int).skip(1) =~= b@.skip(pos as int + 1));
        }
        if byte == 0 {
            Option::Some((FileOpenPreference::CurrentChapter, pos + 1))
        } else if byte == 1 {
            Option::Some((FileOpenPreference::NextChapter, pos + 1))
        } else {
            Option::None
        }
    } else {
        Option::None
    }
}

/// Reads appearance settings at `pos`; agrees with the specification
/// decoder.
fn read_general(b: &[u8], pos: usize) -> (r: Option<(GeneralSettings, usize)>)
    requires
        pos <= b@.len(),
    ensures
        ({
            let t = spec_dec_general(b@.skip(pos as int));
            match r {
                Option::Some(p) => pos <= p.1 <= b@.len() && t == Option::Some((
                    p.0@,
                    b@.skip(p.1 as int),
                )),
                Option::None => t is None,
            }
        }),
{
    match read_theme(b, pos) {
        Option::None => Option::None,
        Option::Some((theme, p1)) => match read_u64(b, p1) {
            Option::None => Option::None,
            Option::Some((font_size_bits, p2)) => match read_str(b, p2) {
                Option::None => Option::None,
                Option::Some((font_family, p3)) => match read_flag(b, p3) {
                    Option::None => Option::None,
                    Option::Some((use_custom_color, p4)) => match read_str(b, p4) {
                        Option::None => Option::None,
                        Option::Some((background_color, p5)) => match read_str(b, p5) {
                            Option::None => Option::None,
                            Option::Some((text_color, p6)) => match read_u64(b, p6) {
                                Option::None => Option::None,
                                Option::Some((auto_scroll_speed_bits, p7)) => match read_flag(
                                    b,
                                    p7,
                                ) {
                                    Option::None => Option::None,
                                    Option::Some((show_page_num, p8)) => match read_flag(b, p8) {
                                        Option::None => Option::None,
                                        Option::Some((show_page_file, p9)) => {
                                            let g = GeneralSettings {
                                                theme,
                                                font_size_bits,
                                                font_family,
                                                use_custom_color,
                                                background_color,
                                                text_color,
                                                auto_scroll_speed_bits,
                                                show_page_num,
                                                show_page_file,
                                            };
                                            Option::Some((g, p9))
                                        },
                                    },
                                },
                            },
                        },
                    },
                },
            },
        },
    }
}

/// How opening the settings store at startup can turn out: the backing
/// file was absent, so defaults were made and their bytes must be
/// persisted; the file held a record; or the file could not be understood,
/// which is fatal for this store.
pub enum SettingsOpen {
    Created(Settings, Vec<u8>),
    Loaded(Settings),
    Corrupt,
}

impl Settings {
    /// Opens the settings store from what the backing file at `path` held:
    /// an absent file yields the defaults together with their wire form,
    /// which the caller must persist at once; a present file yields the
    /// record it holds, and is otherwise reported corrupt.
    pub fn open(path: String, stored: Option<&Vec<u8>>) -> (r: SettingsOpen)
        ensures
            stored is None ==> (r matches SettingsOpen::Created(s, bytes) && s@
                == spec_default_settings(path@) && bytes@ == spec_enc_settings(s@)),
            stored matches Option::Some(b) ==> match spec_dec_settings(b@) {
                Option::Some(d) => r matches SettingsOpen::Loaded(s) && s@ == d,
                Option::None => r is Corrupt,
            },
    {
        match stored {
            Option::None => {
                let s = Settings {
                    general: GeneralSettings::new(),
                    file: FileSettings::new(),
                    path,
                };
                let bytes = s.write();
                SettingsOpen::Created(s, bytes)
            },
            Option::Some(stored_bytes) => {
                let b = stored_bytes.as_slice();
                proof {
                    assert(b@.skip(0) =~= b@);
                }
                match read_general(b, 0) {
                    Option::None => SettingsOpen::Corrupt,
                    Option::Some((general, p1)) => match read_pref(b, p1) {
                        Option::None => SettingsOpen::Corrupt,
                        Option::Some((pref, p2)) => match read_str(b, p2) {
                            Option::None => SettingsOpen::Corrupt,
                            Option::Some((path_str, p3)) => {
                                if p3 != b.len() {
                                    SettingsOpen::Corrupt
                                } else {
                                    let s = Settings {
                                        general,
                                        file: FileSettings { file_open_preference: pref },
                                        path: path_str,
                                    };
                                    proof {
                                        assert(b@.skip(p3 as int).len() == 0);
                                    }
                                    SettingsOpen::Loaded(s)
                                }
                            },
                        },
                    },
                }
            },
        }
    }

    /// Serializes the record so the caller can replace the backing file
    /// with it; the bytes are the wire form of the whole record.
    #[verifier::rlimit(100)]
    pub fn write(&self) -> (out: Vec<u8>)
        ensures
            out@ == spec_enc_settings(self@),
    {
        let mut out: Vec<u8> = Vec::new();
        write_theme(&mut out, &self.general.theme);
        write_u64(&mut out, self.general.font_size_bits);
        write_str(&mut out, self.general.font_family.as_str());
        write_flag(&mut out, self.general.use_custom_color);
        write_str(&mut out, self.general.background_color.as_str());
        write_str(&mut out, self.general.text_color.as_str());
        write_u64(&mut out, self.general.auto_scroll_speed_bits);
        write_flag(&mut out, self.general.show_page_num);
        write_flag(&mut out, self.general.show_page_file);
        write_pref(&mut out, &self.file.file_open_preference);
        write_str(&mut out, self.path.as_str());
        proof {
            assert(out@ =~= spec_enc_settings(self@));
        }
        out
    }
}

} // verus!

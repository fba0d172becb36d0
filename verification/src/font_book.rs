//! The fonts that are loaded, and the runs of glyphs that shaping makes of them.
use crate::fonts;
use crate::fonts::{check_features, check_is_known_emoji_font, FontIdList};
use crate::geometry::Point;
use vstd::prelude::*;
use vstd::string::*;

verus! {

/// A loaded font, numbered by its place in the book.
#[derive(Clone, Copy, Debug, PartialEq, Eq, Structural)]
pub struct LoadedFont {
    /// The number of its face in the database.
    pub face_id: u64,
    /// Whether it is drawn with the features that were asked for when it was loaded.
    pub takes_features: bool,
    pub is_known_emoji_font: bool,
}

/// What the font system reports about a face that is to be loaded.
#[derive(Debug, PartialEq, Eq)]
pub struct FaceReport {
    pub face_id: u64,
    pub post_script_name: String,
    /// Whether the face could be read.
    pub loads: bool,
    /// Whether the face has a glyph for a basic letter.
    pub has_basic_letters: bool,
}

/// Why a family could not be loaded.
#[derive(Clone, Copy, Debug, PartialEq, Eq, Structural)]
pub enum FontError {
    /// A face could not be read.
    CouldNotLoad,
    /// A feature is not named by a tag of four bytes.
    IncorrectFeature,
    /// Neither the family nor any that could stand in for it has a font.
    NoFonts,
}

/// What a report says.
pub struct ReportData {
    pub face_id: u64,
    pub post_script_name: Seq<char>,
    pub loads: bool,
    pub has_basic_letters: bool,
}

impl View for FaceReport {
    type V = ReportData;

    open spec fn view(&self) -> ReportData {
        ReportData {
            face_id: self.face_id,
            post_script_name: self.post_script_name@,
            loads: self.loads,
            has_basic_letters: self.has_basic_letters,
        }
    }
}

/// What a list of reports says.
pub open spec fn report_list(reports: Seq<FaceReport>) -> Seq<ReportData> {
    reports.map_values(|report: FaceReport| report@)
}

/// The font that a report gives.
pub open spec fn loaded_from(report: ReportData) -> LoadedFont {
    LoadedFont {
        face_id: report.face_id,
        takes_features: true,
        is_known_emoji_font: fonts::is_emoji_name(report.post_script_name),
    }
}

/// The fonts that reports give: faces without basic letters are left out.
pub open spec fn fonts_from(reports: Seq<ReportData>) -> Seq<LoadedFont>
    decreases reports.len(),
{
    if reports.len() == 0 {
        Seq::empty()
    } else {
        let rest = fonts_from(reports.drop_last());
        if reports.last().has_basic_letters {
            rest.push(loaded_from(reports.last()))
        } else {
            rest
        }
    }
}

/// The faces that reports leave out.
pub open spec fn faces_left_out(reports: Seq<ReportData>) -> Seq<u64>
    decreases reports.len(),
{
    if reports.len() == 0 {
        Seq::empty()
    } else {
        let rest = faces_left_out(reports.drop_last());
        if reports.last().has_basic_letters {
            rest
        } else {
            rest.push(reports.last().face_id)
        }
    }
}

/// Why loading stops at a report, if it does.
pub open spec fn load_error(report: ReportData, features_valid: bool) -> Option<FontError> {
    if !report.loads {
        Some(FontError::CouldNotLoad)
    } else if report.has_basic_letters && !features_valid {
        Some(FontError::IncorrectFeature)
    } else {
        None
    }
}

/// How many reports loading gets through before it stops.
pub open spec fn good_count(reports: Seq<ReportData>, features_valid: bool) -> nat
    decreases reports.len(),
{
    if reports.len() == 0 {
        0
    } else {
        let before = good_count(reports.drop_last(), features_valid);
        if before == reports.len() - 1 && load_error(reports.last(), features_valid) is None {
            reports.len()
        } else {
            before
        }
    }
}

/// The reports that loading gets through.
pub open spec fn good_reports(reports: Seq<ReportData>, features_valid: bool) -> Seq<ReportData> {
    reports.take(good_count(reports, features_valid) as int)
}

/// What loading gives for a book of `first` fonts.
pub open spec fn load_result(
    first: int,
    reports: Seq<ReportData>,
    features_valid: bool,
) -> Result<Seq<usize>, FontError> {
    let count = good_count(reports, features_valid);
    if count < reports.len() {
        Err(load_error(reports[count as int], features_valid)->0)
    } else {
        Ok(consecutive(first, fonts_from(reports).len()))
    }
}

proof fn lemma_good_count_stops(reports: Seq<ReportData>, features_valid: bool, count: int)
    requires
        0 <= count < reports.len(),
        good_count(reports.take(count), features_valid) == count,
        load_error(reports[count], features_valid) is Some,
    ensures
        good_count(reports, features_valid) == count,
    decreases reports.len(),
{
    let rest = reports.drop_last();
    if count == rest.len() {
        assert(reports.take(count) =~= rest);
    } else {
        assert(rest.take(count) =~= reports.take(count));
        lemma_good_count_stops(rest, features_valid, count);
    }
}

/// The numbers from `first` on, `count` of them.
pub open spec fn consecutive(first: int, count: nat) -> Seq<usize> {
    Seq::new(count, |i: int| (first + i) as usize)
}

/// A run of text that asks for one loaded font.
#[derive(Clone, Copy, Debug, PartialEq, Eq, Structural)]
pub struct FontRun {
    pub len: usize,
    pub font_id: usize,
}

/// Bytes of a line with the font they ask for, if that can be named.
#[derive(Clone, Copy, Debug, PartialEq, Eq, Structural)]
pub struct FontSpan {
    pub start: usize,
    pub end: usize,
    pub font_id: Option<usize>,
}

/// A glyph as shaping places it.
#[derive(Debug, PartialEq, Eq)]
pub struct LayoutGlyph {
    /// The font that the text asked for.
    pub metadata: usize,
    /// The face that shaping chose.
    pub face_id: u64,
    /// The PostScript name of that face, if the font system can load it.
    pub post_script_name: Option<String>,
    pub glyph_id: u16,
    pub position: Point,
    /// The byte of the line at which the glyph begins.
    pub start: usize,
}

/// A glyph ready to be painted.
#[derive(Clone, Copy, Debug, PartialEq, Eq, Structural)]
pub struct ShapedGlyph {
    pub id: u32,
    pub position: Point,
    pub index: usize,
    pub is_emoji: bool,
}

/// Glyphs of one font that stand one after the other.
#[derive(Debug, PartialEq, Eq)]
pub struct ShapedRun {
    pub font_id: usize,
    pub glyphs: Vec<ShapedGlyph>,
}

/// The bytes of runs before run `n`.
pub open spec fn run_offset(runs: Seq<FontRun>, n: int) -> nat
    decreases n,
{
    if n <= 0 {
        0
    } else {
        run_offset(runs, n - 1) + runs[n - 1].len as nat
    }
}

/// Runs begin one behind the other.
pub proof fn lemma_run_offsets_increase(runs: Seq<FontRun>, i: int, j: int)
    requires
        0 <= i <= j,
    ensures
        run_offset(runs, i) <= run_offset(runs, j),
    decreases j - i,
{
    if i < j {
        lemma_run_offsets_increase(runs, i, j - 1);
    }
}

/// The place of the first font with a face.
pub open spec fn first_with_face(fonts: Seq<LoadedFont>, face_id: u64) -> Option<int>
    decreases fonts.len(),
{
    if fonts.len() == 0 {
        None
    } else {
        match first_with_face(fonts.drop_last(), face_id) {
            Some(index) => Some(index),
            None => if fonts.last().face_id == face_id {
                Some(fonts.len() - 1)
            } else {
                None
            },
        }
    }
}

/// The book after the font of a glyph has been looked up: a face that is not loaded yet is added
/// if the font system can load it.
pub open spec fn book_after(book: Seq<LoadedFont>, glyph: LayoutGlyph) -> Seq<LoadedFont> {
    if asked_font_fits(book, glyph) || first_with_face(book, glyph.face_id) is Some
        || glyph.post_script_name is None {
        book
    } else {
        book.push(
            LoadedFont {
                face_id: glyph.face_id,
                takes_features: false,
                is_known_emoji_font: fonts::is_emoji_name(glyph.post_script_name->0@),
            },
        )
    }
}

/// Whether shaping chose the face of the font that the text asked for.
pub open spec fn asked_font_fits(book: Seq<LoadedFont>, glyph: LayoutGlyph) -> bool {
    glyph.metadata < book.len() && book[glyph.metadata as int].face_id == glyph.face_id
}

/// The font of a glyph, if there is one: that which the text asked for, or else the one with the
/// face that shaping chose.
pub open spec fn glyph_font(book: Seq<LoadedFont>, glyph: LayoutGlyph) -> Option<int> {
    if asked_font_fits(book, glyph) {
        Some(glyph.metadata as int)
    } else if first_with_face(book, glyph.face_id) is Some {
        first_with_face(book, glyph.face_id)
    } else if glyph.post_script_name is Some {
        Some(book.len() as int)
    } else {
        None
    }
}

/// The glyph to paint, if any, with its font. Glyph three of a font of colored symbols is a
/// variation selector and is not painted.
pub open spec fn painted(book: Seq<LoadedFont>, glyph: LayoutGlyph) -> Option<(int, ShapedGlyph)> {
    match glyph_font(book, glyph) {
        None => None,
        Some(font) => {
            let is_emoji = book_after(book, glyph)[font].is_known_emoji_font;
            if glyph.glyph_id == 3 && is_emoji {
                None
            } else {
                Some(
                    (
                        font,
                        ShapedGlyph {
                            id: glyph.glyph_id as u32,
                            position: glyph.position,
                            index: glyph.start,
                            is_emoji,
                        },
                    ),
                )
            }
        },
    }
}

/// What a list of runs holds.
pub open spec fn run_list(runs: Seq<ShapedRun>) -> Seq<(int, Seq<ShapedGlyph>)> {
    runs.map_values(|run: ShapedRun| (run.font_id as int, run.glyphs@))
}

/// Runs with one more glyph: it joins the last run if that has its font.
pub open spec fn with_glyph(
    runs: Seq<(int, Seq<ShapedGlyph>)>,
    font: int,
    glyph: ShapedGlyph,
) -> Seq<(int, Seq<ShapedGlyph>)> {
    if runs.len() > 0 && runs.last().0 == font {
        runs.drop_last().push((font, runs.last().1.push(glyph)))
    } else {
        runs.push((font, seq![glyph]))
    }
}

/// The book and the runs after glyphs have been shaped.
pub open spec fn shaped(book: Seq<LoadedFont>, glyphs: Seq<LayoutGlyph>) -> (
    Seq<LoadedFont>,
    Seq<(int, Seq<ShapedGlyph>)>,
)
    decreases glyphs.len(),
{
    if glyphs.len() == 0 {
        (book, Seq::empty())
    } else {
        let (before, runs) = shaped(book, glyphs.drop_last());
        (
            book_after(before, glyphs.last()),
            match painted(before, glyphs.last()) {
                Some((font, glyph)) => with_glyph(runs, font, glyph),
                None => runs,
            },
        )
    }
}

/// The fonts that are loaded.
pub struct FontBook {
    pub fonts: Vec<LoadedFont>,
}

impl FontBook {
    /// Starts without fonts.
    pub fn new() -> (book: Self)
        ensures
            book.fonts@.len() == 0,
    {
        FontBook { fonts: Vec::new() }
    }

    /// Loads the faces of a family, and tells which faces were left out because they cannot render
    /// basic letters. It stops at the first face that cannot be read, or that would need an invalid
    /// feature; what was loaded before stays loaded.
    pub fn load_faces(
        &mut self,
        reports: &Vec<FaceReport>,
        features: &Vec<(String, u32)>,
    ) -> (outcome: (Result<FontIdList, FontError>, Vec<u64>))
        requires
            old(self).fonts@.len() + reports@.len() <= usize::MAX,
        ensures
            final(self).fonts@ == old(self).fonts@ + fonts_from(
                good_reports(report_list(reports@), fonts::features_valid(features@)),
            ),
            outcome.1@ == faces_left_out(
                good_reports(report_list(reports@), fonts::features_valid(features@)),
            ),
            match outcome.0 {
                Ok(ids) => load_result(
                    old(self).fonts@.len() as int,
                    report_list(reports@),
                    fonts::features_valid(features@),
                ) == Ok::<Seq<usize>, FontError>(ids@),
                Err(error) => load_result(
                    old(self).fonts@.len() as int,
                    report_list(reports@),
                    fonts::features_valid(features@),
                ) == Err::<Seq<usize>, FontError>(error),
            },
    {
        let features_valid: bool = check_features(features);
        let ghost before = self.fonts@;
        let ghost first = before.len() as int;
        let ghost data = report_list(reports@);
        let mut ids = FontIdList::new();
        let mut left_out: Vec<u64> = Vec::new();
        let mut i: usize = 0;
        proof {
            assert(self.fonts@ =~= before + fonts_from(data.take(0)));
            assert(left_out@ =~= faces_left_out(data.take(0)));
            assert(ids@ =~= consecutive(first, 0));
        }
        while i < reports.len()
            invariant
                i <= reports@.len(),
                before == old(self).fonts@,
                first == before.len(),
                data == report_list(reports@),
                before.len() + reports@.len() <= usize::MAX,
                features_valid == fonts::features_valid(features@),
                good_count(data.take(i as int), features_valid) == i,
                self.fonts@ == before + fonts_from(data.take(i as int)),
                fonts_from(data.take(i as int)).len() <= i,
                left_out@ == faces_left_out(data.take(i as int)),
                ids@ == consecutive(first, fonts_from(data.take(i as int)).len()),
            decreases reports@.len() - i,
        {
            let report: &FaceReport = &reports[i];
            let ghost done = data.take(i as int);
            let ghost longer = data.take(i as int + 1);
            assert(longer.drop_last() =~= done);
            assert(longer.last() == report@);
            if !report.loads {
                proof {
                    lemma_good_count_stops(data, features_valid, i as int);
                }
                return (Err(FontError::CouldNotLoad), left_out);
            }
            if !report.has_basic_letters {
                left_out.push(report.face_id);
            } else {
                if !features_valid {
                    proof {
                        lemma_good_count_stops(data, features_valid, i as int);
                    }
                    return (Err(FontError::IncorrectFeature), left_out);
                }
                let font_id: usize = self.fonts.len();
                ids.push(font_id);
                let font = LoadedFont {
                    face_id: report.face_id,
                    takes_features: true,
                    is_known_emoji_font: check_is_known_emoji_font(
                        report.post_script_name.as_str(),
                    ),
                };
                self.fonts.push(font);
                proof {
                    assert(font == loaded_from(report@));
                    assert(self.fonts@ =~= before + fonts_from(longer));
                    assert(ids@ =~= consecutive(first, fonts_from(longer).len()));
                }
            }
            i = i + 1;
        }
        assert(data.take(data.len() as int) =~= data);
        (Ok(ids), left_out)
    }

    /// Finds the first font with a face.
    fn position_of_face(&self, face_id: u64) -> (found: Option<usize>)
        ensures
            match found {
                Some(index) => first_with_face(self.fonts@, face_id) == Some(index as int) && index
                    < self.fonts@.len(),
                None => first_with_face(self.fonts@, face_id) is None,
            },
    {
        let mut i: usize = 0;
        while i < self.fonts.len()
            invariant
                i <= self.fonts@.len(),
                first_with_face(self.fonts@.take(i as int), face_id) is None,
            decreases self.fonts@.len() - i,
        {
            proof {
                let longer = self.fonts@.take(i as int + 1);
                assert(longer.drop_last() =~= self.fonts@.take(i as int));
            }
            if self.fonts[i].face_id == face_id {
                proof {
                    lemma_first_with_face_extends(self.fonts@, face_id, i as int + 1);
                }
                return Some(i);
            }
            i = i + 1;
        }
        assert(self.fonts@.take(self.fonts@.len() as int) =~= self.fonts@);
        None
    }

    /// Finds the font for a face that shaping chose by itself, and loads it if that is needed and
    /// possible.
    pub fn font_id_for_face(&mut self, face_id: u64, post_script_name: &Option<String>) -> (font:
        Option<usize>)
        requires
            old(self).fonts@.len() < usize::MAX,
        ensures
            match font {
                Some(index) => {
                    &&& index < final(self).fonts@.len()
                    &&& if first_with_face(old(self).fonts@, face_id) is Some {
                        &&& Some(index as int) == first_with_face(old(self).fonts@, face_id)
                        &&& final(self).fonts@ == old(self).fonts@
                    } else {
                        &&& post_script_name is Some
                        &&& index == old(self).fonts@.len()
                        &&& final(self).fonts@ == old(self).fonts@.push(
                            LoadedFont {
                                face_id,
                                takes_features: false,
                                is_known_emoji_font: fonts::is_emoji_name(post_script_name->0@),
                            },
                        )
                    }
                },
                None => first_with_face(old(self).fonts@, face_id) is None
                    && post_script_name is None && final(self).fonts@ == old(self).fonts@,
            },
    {
        let known: Option<usize> = self.position_of_face(face_id);
        if known.is_some() {
            return known;
        }
        match post_script_name {
            Some(name) => {
                let font_id: usize = self.fonts.len();
                self.fonts.push(
                    LoadedFont {
                        face_id,
                        takes_features: false,
                        is_known_emoji_font: check_is_known_emoji_font(name.as_str()),
                    },
                );
                Some(font_id)
            },
            None => None,
        }
    }

    /// Groups shaped glyphs into runs of one font, loading the fonts that shaping fell back to.
    pub fn shape_runs(&mut self, glyphs: &Vec<LayoutGlyph>) -> (runs: Vec<ShapedRun>)
        requires
            old(self).fonts@.len() + glyphs@.len() < usize::MAX,
        ensures
            run_list(runs@) == shaped(old(self).fonts@, glyphs@).1,
            final(self).fonts@ == shaped(old(self).fonts@, glyphs@).0,
    {
        let ghost book = self.fonts@;
        let mut runs: Vec<ShapedRun> = Vec::new();
        let mut i: usize = 0;
        assert(run_list(runs@) =~= shaped(book, glyphs@.take(0)).1);
        while i < glyphs.len()
            invariant
                i <= glyphs@.len(),
                book == old(self).fonts@,
                book.len() + glyphs@.len() < usize::MAX,
                self.fonts@ == shaped(book, glyphs@.take(i as int)).0,
                self.fonts@.len() <= book.len() + i,
                run_list(runs@) == shaped(book, glyphs@.take(i as int)).1,
            decreases glyphs@.len() - i,
        {
            let glyph: &LayoutGlyph = &glyphs[i];
            let ghost before = self.fonts@;
            let ghost runs_before = run_list(runs@);
            proof {
                let longer = glyphs@.take(i as int + 1);
                assert(longer.drop_last() =~= glyphs@.take(i as int));
                assert(longer.last() == *glyph);
            }
            let asked: bool = glyph.metadata < self.fonts.len()
                && self.fonts[glyph.metadata].face_id == glyph.face_id;
            let font: Option<usize> = if asked {
                Some(glyph.metadata)
            } else {
                self.font_id_for_face(glyph.face_id, &glyph.post_script_name)
            };
            assert(self.fonts@ == book_after(before, *glyph));
            if let Some(font_id) = font {
                assert(glyph_font(before, *glyph) == Some(font_id as int));
                let is_emoji: bool = self.fonts[font_id].is_known_emoji_font;
                if !(glyph.glyph_id == 3 && is_emoji) {
                    let shaped_glyph = ShapedGlyph {
                        id: glyph.glyph_id as u32,
                        position: glyph.position,
                        index: glyph.start,
                        is_emoji,
                    };
                    assert(painted(before, *glyph) == Some((font_id as int, shaped_glyph)));
                    push_glyph(&mut runs, font_id, shaped_glyph);
                } else {
                    assert(painted(before, *glyph) is None);
                }
            } else {
                assert(painted(before, *glyph) is None);
            }
            i = i + 1;
        }
        assert(glyphs@.take(glyphs@.len() as int) =~= glyphs@);
        runs
    }
}

proof fn lemma_first_with_face_extends(fonts: Seq<LoadedFont>, face_id: u64, count: int)
    requires
        0 <= count <= fonts.len(),
        first_with_face(fonts.take(count), face_id) is Some,
    ensures
        first_with_face(fonts, face_id) == first_with_face(fonts.take(count), face_id),
    decreases fonts.len() - count,
{
    if count == fonts.len() {
        assert(fonts.take(count) =~= fonts);
    } else {
        assert(fonts.take(count + 1).drop_last() =~= fonts.take(count));
        lemma_first_with_face_extends(fonts, face_id, count + 1);
    }
}

/// Adds a glyph to the last run if that has its font, and else begins a run.
fn push_glyph(runs: &mut Vec<ShapedRun>, font_id: usize, glyph: ShapedGlyph)
    ensures
        run_list(final(runs)@) == with_glyph(run_list(old(runs)@), font_id as int, glyph),
{
    let ghost list = run_list(runs@);
    match runs.pop() {
        Some(last) => {
            let mut last = last;
            let ghost rest = run_list(runs@);
            assert(rest =~= list.drop_last());
            assert(list.last() == (last.font_id as int, last.glyphs@));
            if last.font_id == font_id {
                last.glyphs.push(glyph);
                runs.push(last);
                assert(run_list(runs@) =~= rest.push((font_id as int, list.last().1.push(glyph))));
            } else {
                runs.push(last);
                assert(run_list(runs@) =~= list);
                let mut glyphs: Vec<ShapedGlyph> = Vec::new();
                glyphs.push(glyph);
                assert(glyphs@ =~= seq![glyph]);
                runs.push(ShapedRun { font_id, glyphs });
                assert(run_list(runs@) =~= list.push((font_id as int, seq![glyph])));
            }
        },
        None => {
            let mut glyphs: Vec<ShapedGlyph> = Vec::new();
            glyphs.push(glyph);
            assert(glyphs@ =~= seq![glyph]);
            runs.push(ShapedRun { font_id, glyphs });
            assert(run_list(runs@) =~= list.push((font_id as int, seq![glyph])));
        },
    }
}

/// Every glyph to paint with its font, in order.
pub open spec fn painted_glyphs(book: Seq<LoadedFont>, glyphs: Seq<LayoutGlyph>) -> Seq<
    (int, ShapedGlyph),
>
    decreases glyphs.len(),
{
    if glyphs.len() == 0 {
        Seq::empty()
    } else {
        let before = painted_glyphs(book, glyphs.drop_last());
        match painted(shaped(book, glyphs.drop_last()).0, glyphs.last()) {
            Some(pair) => before.push(pair),
            None => before,
        }
    }
}

/// The glyphs of runs one after the other, each with the font of its run.
pub open spec fn unrolled(runs: Seq<(int, Seq<ShapedGlyph>)>) -> Seq<(int, ShapedGlyph)>
    decreases runs.len(),
{
    if runs.len() == 0 {
        Seq::empty()
    } else {
        unrolled(runs.drop_last()) + Seq::new(
            runs.last().1.len(),
            |i: int| (runs.last().0, runs.last().1[i]),
        )
    }
}

/// Whether no run is empty and no two neighbours have the same font.
pub open spec fn runs_are_maximal(runs: Seq<(int, Seq<ShapedGlyph>)>) -> bool {
    &&& forall|i: int| 0 <= i < runs.len() ==> (#[trigger] runs[i]).1.len() > 0
    &&& forall|i: int, j: int|
        0 <= i < runs.len() && j == i + 1 && j < runs.len() ==> (#[trigger] runs[i]).0 != (
        #[trigger] runs[j]).0
}

proof fn lemma_with_glyph(runs: Seq<(int, Seq<ShapedGlyph>)>, font: int, glyph: ShapedGlyph)
    ensures
        unrolled(with_glyph(runs, font, glyph)) == unrolled(runs).push((font, glyph)),
        runs_are_maximal(runs) ==> runs_are_maximal(with_glyph(runs, font, glyph)),
{
    let longer = with_glyph(runs, font, glyph);
    if runs.len() > 0 && runs.last().0 == font {
        assert(longer.drop_last() =~= runs.drop_last());
    } else {
        assert(longer.drop_last() =~= runs);
    }
    assert(unrolled(longer) =~= unrolled(runs).push((font, glyph)));
}

/// Runs hold every glyph that is painted, each once and in order, under its own font; no run is
/// empty, and neighbouring runs have different fonts.
pub proof fn runs_partition_the_glyphs(book: Seq<LoadedFont>, glyphs: Seq<LayoutGlyph>)
    ensures
        unrolled(shaped(book, glyphs).1) == painted_glyphs(book, glyphs),
        runs_are_maximal(shaped(book, glyphs).1),
    decreases glyphs.len(),
{
    if glyphs.len() > 0 {
        let rest = glyphs.drop_last();
        runs_partition_the_glyphs(book, rest);
        let (before, runs) = shaped(book, rest);
        match painted(before, glyphs.last()) {
            Some((font, glyph)) => {
                lemma_with_glyph(runs, font, glyph);
            },
            None => {},
        }
    }
}

proof fn lemma_first_with_face_in_range(fonts: Seq<LoadedFont>, face_id: u64)
    ensures
        match first_with_face(fonts, face_id) {
            Some(index) => 0 <= index < fonts.len() && fonts[index].face_id == face_id,
            None => forall|i: int| 0 <= i < fonts.len() ==> fonts[i].face_id != face_id,
        },
    decreases fonts.len(),
{
    if fonts.len() > 0 {
        let rest = fonts.drop_last();
        lemma_first_with_face_in_range(rest, face_id);
        assert(forall|i: int| 0 <= i < rest.len() ==> rest[i] == fonts[i]);
        if first_with_face(rest, face_id) is None && fonts.last().face_id != face_id {
            assert forall|i: int| 0 <= i < fonts.len() implies fonts[i].face_id != face_id by {
                if i < rest.len() {
                    assert(rest[i].face_id != face_id);
                }
            }
        }
    }
}

/// Shaping only adds fonts: those that are loaded keep their numbers. Every painted glyph has a
/// loaded font, whose face is the one that shaping chose.
pub proof fn shaping_keeps_font_numbers(book: Seq<LoadedFont>, glyphs: Seq<LayoutGlyph>)
    ensures
        book.len() <= shaped(book, glyphs).0.len(),
        shaped(book, glyphs).0.take(book.len() as int) == book,
        forall|i: int|
            0 <= i < painted_glyphs(book, glyphs).len() ==> 0 <= (#[trigger] painted_glyphs(
                book,
                glyphs,
            )[i]).0 < shaped(book, glyphs).0.len(),
    decreases glyphs.len(),
{
    if glyphs.len() == 0 {
        assert(book.take(book.len() as int) =~= book);
    } else {
        let rest = glyphs.drop_last();
        let last = glyphs.last();
        shaping_keeps_font_numbers(book, rest);
        let before = shaped(book, rest).0;
        let after = shaped(book, glyphs).0;
        lemma_first_with_face_in_range(before, last.face_id);
        assert(after == book_after(before, last));
        assert(after.take(book.len() as int) =~= before.take(book.len() as int));
        let pairs = painted_glyphs(book, rest);
        assert forall|i: int| 0 <= i < painted_glyphs(book, glyphs).len() implies 0 <= (
        #[trigger] painted_glyphs(book, glyphs)[i]).0 < after.len() by {
            if i < pairs.len() {
                assert(painted_glyphs(book, glyphs)[i] == pairs[i]);
            }
        }
    }
}

/// A glyph is painted with the face that shaping chose.
pub proof fn glyphs_keep_their_face(book: Seq<LoadedFont>, glyph: LayoutGlyph)
    ensures
        match glyph_font(book, glyph) {
            Some(font) => 0 <= font < book_after(book, glyph).len() && book_after(book, glyph)[font].face_id
                == glyph.face_id,
            None => forall|i: int| 0 <= i < book.len() ==> book[i].face_id != glyph.face_id,
        },
{
    lemma_first_with_face_in_range(book, glyph.face_id);
}

/// The byte with which a byte of a four byte pixel changes places.
pub open spec fn swapped_place(i: int) -> int {
    if i % 4 == 0 {
        i + 2
    } else if i % 4 == 2 {
        i - 2
    } else {
        i
    }
}

/// Pixels with their first and third byte exchanged; what is left after the last whole pixel stays.
pub open spec fn with_swapped_channels(bytes: Seq<u8>) -> Seq<u8> {
    let whole = bytes.len() - bytes.len() % 4;
    Seq::new(
        bytes.len(),
        |i: int|
            if i < whole {
                bytes[swapped_place(i)]
            } else {
                bytes[i]
            },
    )
}

/// Exchanges red and blue in pixels of four bytes.
pub fn swap_red_and_blue(bytes: &mut Vec<u8>)
    ensures
        final(bytes)@ == with_swapped_channels(old(bytes)@),
{
    let ghost before = bytes@;
    let total: usize = bytes.len();
    let mut i: usize = 0;
    while total - i >= 4
        invariant
            total == bytes@.len(),
            before.len() == total,
            i <= total,
            i % 4 == 0,
            forall|j: int| 0 <= j < i ==> bytes@[j] == before[swapped_place(j)],
            forall|j: int| i <= j < total ==> bytes@[j] == before[j],
        decreases total - i,
    {
        let red: u8 = bytes[i];
        let blue: u8 = bytes[i + 2];
        let ghost at_start = bytes@;
        bytes.set(i, blue);
        bytes.set(i + 2, red);
        proof {
            assert forall|j: int| 0 <= j < i + 4 implies bytes@[j] == before[swapped_place(j)] by {
                if j < i {
                    assert(bytes@[j] == at_start[j]);
                }
            }
        }
        i = i + 4;
    }
    assert(bytes@ =~= with_swapped_channels(before));
}

/// Exchanging red and blue twice changes nothing.
pub proof fn swapping_channels_twice_restores(bytes: Seq<u8>)
    ensures
        with_swapped_channels(with_swapped_channels(bytes)) == bytes,
{
    let once = with_swapped_channels(bytes);
    let twice = with_swapped_channels(once);
    let whole = bytes.len() - bytes.len() % 4;
    assert forall|i: int| 0 <= i < bytes.len() implies twice[i] == bytes[i] by {
        if i < whole {
            let j = swapped_place(i);
            assert(0 <= j < whole);
            assert(swapped_place(j) == i);
            assert(once[j] == bytes[i]);
        }
    }
    assert(twice =~= bytes);
}

/// How the pixels of a rasterized glyph are stored.
#[derive(Clone, Copy, Debug, PartialEq, Eq, Structural)]
pub enum GlyphContent {
    Mask,
    Color,
    SubpixelMask,
}

/// A rasterized glyph.
#[derive(Debug, PartialEq, Eq)]
pub struct GlyphImage {
    pub content: GlyphContent,
    pub data: Vec<u8>,
}

/// Why a glyph could not be rasterized.
#[derive(Clone, Copy, Debug, PartialEq, Eq, Structural)]
pub enum RasterError {
    EmptyBounds,
    CouldNotRender,
}

/// The pixels of an image in the order in which they are painted: coverage stays, colors have red
/// and blue exchanged.
pub open spec fn painted_pixels(image: GlyphImage) -> Seq<u8> {
    if image.content is Mask {
        image.data@
    } else {
        with_swapped_channels(image.data@)
    }
}

/// Turns the image of a glyph, where there is one, into the pixels to paint. Nothing is rasterized
/// into empty bounds.
pub fn rasterize_glyph(width: i32, height: i32, image: Option<GlyphImage>) -> (pixels: Result<
    Vec<u8>,
    RasterError,
>)
    ensures
        match pixels {
            Ok(bytes) => width != 0 && height != 0 && image is Some && bytes@ == painted_pixels(
                image->0,
            ),
            Err(RasterError::EmptyBounds) => width == 0 || height == 0,
            Err(RasterError::CouldNotRender) => width != 0 && height != 0 && image is None,
        },
{
    if width == 0 || height == 0 {
        return Err(RasterError::EmptyBounds);
    }
    match image {
        Some(image) => {
            let mut bytes: Vec<u8> = image.data;
            if image.content != GlyphContent::Mask {
                swap_red_and_blue(&mut bytes);
            }
            Ok(bytes)
        },
        None => Err(RasterError::CouldNotRender),
    }
}

/// Whether glyph `k` of a list of painted glyphs, each with its font, is glyph `source` of the line: it has
/// the number, the place and the first byte that the line gave it, and a font with the face that shaping
/// chose. That is the font that the text asked for if it has this face, and else the first that has it.
pub open spec fn is_painted_from(
    book: Seq<LoadedFont>,
    fonts: Seq<LoadedFont>,
    glyph: LayoutGlyph,
    font: int,
    painted: ShapedGlyph,
) -> bool {
    &&& 0 <= font < fonts.len()
    &&& painted.id == glyph.glyph_id
    &&& painted.position.x == glyph.position.x
    &&& painted.position.y == glyph.position.y
    &&& painted.index == glyph.start
    &&& painted.is_emoji == fonts[font].is_known_emoji_font
    &&& !(painted.id == 3 && painted.is_emoji)
    &&& fonts[font].face_id == glyph.face_id
    &&& glyph.metadata < book.len() && book[glyph.metadata as int].face_id == glyph.face_id ==> font
        == glyph.metadata
    &&& glyph.metadata >= fonts.len() || fonts[glyph.metadata as int].face_id != glyph.face_id
        ==> forall|j: int| 0 <= j < font ==> (#[trigger] fonts[j]).face_id != glyph.face_id
}

/// Whether a glyph of a line may be left out: it selects a variant of a coloured symbol, or its face has
/// no font and cannot be loaded.
pub open spec fn is_left_out(book: Seq<LoadedFont>, fonts: Seq<LoadedFont>, glyph: LayoutGlyph) -> bool {
    ||| glyph.glyph_id == 3 && exists|font: int|
        0 <= font < fonts.len() && (#[trigger] fonts[font]).face_id == glyph.face_id
            && fonts[font].is_known_emoji_font
    ||| glyph.post_script_name is None && forall|j: int|
        0 <= j < book.len() ==> (#[trigger] book[j]).face_id != glyph.face_id
}

/// The glyphs of the runs, one behind the other, are glyphs of the line in their order: each stands at just
/// the x and the y that the line gave it, has its number and its first byte, and is painted with the face
/// that shaping chose. A glyph of the line is missing only where it selects a variant of a coloured
/// symbol, or where its face cannot be loaded. The places of the painted glyphs in the line are returned.
pub proof fn painted_glyphs_stand_where_the_line_puts_them(
    book: Seq<LoadedFont>,
    glyphs: Seq<LayoutGlyph>,
) -> (sources: Seq<int>)
    ensures
        ({
            let (fonts, runs) = shaped(book, glyphs);
            let list = unrolled(runs);
            &&& sources.len() == list.len()
            &&& forall|k: int| 0 <= k < sources.len() ==> 0 <= #[trigger] sources[k] < glyphs.len()
            &&& forall|k: int, l: int|
                0 <= k < l < sources.len() ==> #[trigger] sources[k] < #[trigger] sources[l]
            &&& forall|k: int|
                0 <= k < list.len() ==> {
                    let glyph = glyphs[sources[k]];
                    &&& (#[trigger] list[k]).1.id == glyph.glyph_id
                    &&& list[k].1.position.x == glyph.position.x
                    &&& list[k].1.position.y == glyph.position.y
                    &&& list[k].1.index == glyph.start
                    &&& is_painted_from(book, fonts, glyph, list[k].0, list[k].1)
                }
            &&& forall|i: int|
                0 <= i < glyphs.len() && !sources.contains(i) ==> is_left_out(
                    book,
                    fonts,
                    #[trigger] glyphs[i],
                )
        }),
    decreases glyphs.len(),
{
    if glyphs.len() == 0 {
        Seq::empty()
    } else {
        let rest = glyphs.drop_last();
        let glyph = glyphs.last();
        let earlier = painted_glyphs_stand_where_the_line_puts_them(book, rest);
        let (before, runs) = shaped(book, rest);
        let (fonts, longer) = shaped(book, glyphs);
        let list = unrolled(runs);
        shaping_keeps_font_numbers(book, rest);
        assert forall|j: int| 0 <= j < book.len() implies before[j] == #[trigger] book[j] by {
            assert(before.take(book.len() as int)[j] == before[j]);
        }
        lemma_first_with_face_in_range(before, glyph.face_id);
        lemma_first_with_face_is_first(before, glyph.face_id);
        assert(fonts == book_after(before, glyph));
        assert forall|j: int| 0 <= j < before.len() implies fonts[j] == #[trigger] before[j] by {}
        assert forall|k: int| 0 <= k < list.len() implies is_painted_from(
            book,
            fonts,
            rest[earlier[k]],
            (#[trigger] list[k]).0,
            list[k].1,
        ) by {
            assert(is_painted_from(book, before, rest[earlier[k]], list[k].0, list[k].1));
        }
        assert forall|i: int| 0 <= i < rest.len() && is_left_out(
            book,
            before,
            #[trigger] rest[i],
        ) implies is_left_out(book, fonts, rest[i]) by {
            if rest[i].glyph_id == 3 && exists|font: int|
                0 <= font < before.len() && (#[trigger] before[font]).face_id == rest[i].face_id
                    && before[font].is_known_emoji_font {
                let font = choose|font: int|
                    0 <= font < before.len() && (#[trigger] before[font]).face_id == rest[i].face_id
                        && before[font].is_known_emoji_font;
                assert(fonts[font] == before[font]);
            }
        }
        let sources = match painted(before, glyph) {
            Some((font, shaped_glyph)) => {
                lemma_with_glyph(runs, font, shaped_glyph);
                assert(is_painted_from(book, fonts, glyph, font, shaped_glyph));
                earlier.push(rest.len() as int)
            },
            None => {
                if glyph_font(before, glyph) is Some {
                    let font = glyph_font(before, glyph)->0;
                    assert(fonts[font].face_id == glyph.face_id);
                }
                assert(is_left_out(book, fonts, glyph));
                earlier
            },
        };
        assert forall|i: int| 0 <= i < glyphs.len() && !sources.contains(i) implies is_left_out(
            book,
            fonts,
            #[trigger] glyphs[i],
        ) by {
            if i < rest.len() {
                if earlier.contains(i) {
                    let k = choose|k: int| 0 <= k < earlier.len() && earlier[k] == i;
                    assert(sources[k] == i);
                }
                assert(is_left_out(book, before, rest[i]));
            } else if painted(before, glyph) is Some {
                assert(sources[sources.len() - 1] == i);
            }
        }
        let all = unrolled(longer);
        assert forall|k: int| 0 <= k < all.len() implies is_painted_from(
            book,
            fonts,
            glyphs[sources[k]],
            (#[trigger] all[k]).0,
            all[k].1,
        ) by {
            if k < list.len() {
                assert(all[k] == list[k]);
                assert(rest[earlier[k]] == glyphs[sources[k]]);
            }
        }
        sources
    }
}

proof fn lemma_first_with_face_is_first(fonts: Seq<LoadedFont>, face_id: u64)
    ensures
        first_with_face(fonts, face_id) matches Some(index) ==> forall|j: int|
            0 <= j < index ==> (#[trigger] fonts[j]).face_id != face_id,
    decreases fonts.len(),
{
    if fonts.len() > 0 {
        let rest = fonts.drop_last();
        lemma_first_with_face_is_first(rest, face_id);
        lemma_first_with_face_in_range(rest, face_id);
        if let Some(index) = first_with_face(fonts, face_id) {
            assert forall|j: int| 0 <= j < index implies (#[trigger] fonts[j]).face_id != face_id by {
                assert(rest[j] == fonts[j]);
            }
        }
    }
}

/// Fonts that are loaded while a line is laid out have the face of a glyph of the line, which had no font
/// before; they are drawn without features, and hold coloured symbols where the name of the face says so.
pub proof fn fallback_fonts_come_from_the_line(book: Seq<LoadedFont>, glyphs: Seq<LayoutGlyph>, n: int)
    requires
        book.len() <= n < shaped(book, glyphs).0.len(),
    ensures
        ({
            let fonts = shaped(book, glyphs).0;
            &&& !fonts[n].takes_features
            &&& forall|j: int| 0 <= j < n ==> (#[trigger] fonts[j]).face_id != fonts[n].face_id
            &&& exists|i: int|
                0 <= i < glyphs.len() && (#[trigger] glyphs[i]).face_id == fonts[n].face_id
                    && glyphs[i].post_script_name is Some && fonts[n].is_known_emoji_font
                    == fonts::is_emoji_name(glyphs[i].post_script_name->0@)
        }),
    decreases glyphs.len(),
{
    if glyphs.len() > 0 {
        let rest = glyphs.drop_last();
        let glyph = glyphs.last();
        let before = shaped(book, rest).0;
        let fonts = shaped(book, glyphs).0;
        lemma_first_with_face_in_range(before, glyph.face_id);
        if n < before.len() {
            fallback_fonts_come_from_the_line(book, rest, n);
            let i = choose|i: int|
                0 <= i < rest.len() && (#[trigger] rest[i]).face_id == before[n].face_id
                    && rest[i].post_script_name is Some && before[n].is_known_emoji_font
                    == fonts::is_emoji_name(rest[i].post_script_name->0@);
            assert(glyphs[i] == rest[i]);
            assert forall|j: int| 0 <= j < n implies (#[trigger] fonts[j]).face_id
                != fonts[n].face_id by {
                assert(before[j] == fonts[j]);
            }
        } else {
            assert(glyphs[glyphs.len() - 1] == glyph);
        }
    }
}

/// A family is loaded face by face: each face with basic letters becomes the next font, drawn with the
/// features, and each face without is left out. Where all faces can be read, and the features are right,
/// the numbers of the new fonts are handed out in order.
pub proof fn families_load_face_by_face(first: int, reports: Seq<ReportData>, k: int)
    requires
        0 <= first,
        first + reports.len() <= usize::MAX,
        forall|i: int| 0 <= i < reports.len() ==> (#[trigger] reports[i]).loads,
        0 <= k < reports.len(),
    ensures
        good_reports(reports, true) == reports,
        load_result(first, reports, true) matches Ok(ids) && ids.len() == fonts_from(reports).len() && (
        forall|i: int| 0 <= i < ids.len() ==> #[trigger] ids[i] == first + i),
        fonts_from(reports).len() + faces_left_out(reports).len() == reports.len(),
        if reports[k].has_basic_letters {
            exists|i: int|
                0 <= i < fonts_from(reports).len() && (#[trigger] fonts_from(reports)[i]).face_id
                    == reports[k].face_id && fonts_from(reports)[i].takes_features
                    && fonts_from(reports)[i].is_known_emoji_font == fonts::is_emoji_name(
                    reports[k].post_script_name,
                )
        } else {
            faces_left_out(reports).contains(reports[k].face_id)
        },
{
    lemma_all_are_good(reports);
    assert(reports.take(reports.len() as int) =~= reports);
    lemma_faces_are_loaded_or_left_out(reports, k);
}

proof fn lemma_all_are_good(reports: Seq<ReportData>)
    requires
        forall|i: int| 0 <= i < reports.len() ==> (#[trigger] reports[i]).loads,
    ensures
        good_count(reports, true) == reports.len(),
    decreases reports.len(),
{
    if reports.len() > 0 {
        lemma_all_are_good(reports.drop_last());
        assert(reports[reports.len() - 1].loads);
    }
}

proof fn lemma_faces_are_loaded_or_left_out(reports: Seq<ReportData>, k: int)
    requires
        0 <= k < reports.len(),
    ensures
        fonts_from(reports).len() + faces_left_out(reports).len() == reports.len(),
        if reports[k].has_basic_letters {
            exists|i: int|
                0 <= i < fonts_from(reports).len() && (#[trigger] fonts_from(reports)[i]).face_id
                    == reports[k].face_id && fonts_from(reports)[i].takes_features
                    && fonts_from(reports)[i].is_known_emoji_font == fonts::is_emoji_name(
                    reports[k].post_script_name,
                )
        } else {
            faces_left_out(reports).contains(reports[k].face_id)
        },
    decreases reports.len(),
{
    let rest = reports.drop_last();
    let loaded = fonts_from(rest);
    let left_out = faces_left_out(rest);
    if rest.len() > 0 {
        lemma_faces_are_loaded_or_left_out(rest, if k < rest.len() { k } else { 0 });
    }
    if k < rest.len() {
        assert(rest[k] == reports[k]);
        if reports[k].has_basic_letters {
            let i = choose|i: int|
                0 <= i < loaded.len() && (#[trigger] loaded[i]).face_id == reports[k].face_id
                    && loaded[i].takes_features && loaded[i].is_known_emoji_font
                    == fonts::is_emoji_name(reports[k].post_script_name);
            assert(fonts_from(reports)[i] == loaded[i]);
        } else {
            let i = choose|i: int| 0 <= i < left_out.len() && left_out[i] == reports[k].face_id;
            assert(faces_left_out(reports)[i] == reports[k].face_id);
        }
    } else if reports[k].has_basic_letters {
        assert(fonts_from(reports)[loaded.len() as int].face_id == reports[k].face_id);
    } else {
        assert(faces_left_out(reports)[left_out.len() as int] == reports[k].face_id);
    }
}

/// Loading stops at the first face that cannot be read, or that has letters while the features are wrong,
/// and says which; the faces before it stay loaded.
pub proof fn loading_stops_at_the_first_bad_face(
    first: int,
    reports: Seq<ReportData>,
    features_valid: bool,
    bad: int,
)
    requires
        0 <= bad < reports.len(),
        forall|i: int|
            0 <= i < bad ==> (#[trigger] reports[i]).loads && (features_valid
                || !reports[i].has_basic_letters),
        !reports[bad].loads || (reports[bad].has_basic_letters && !features_valid),
    ensures
        good_reports(reports, features_valid) == reports.take(bad),
        load_result(first, reports, features_valid) == Err::<Seq<usize>, FontError>(
            if reports[bad].loads {
                FontError::IncorrectFeature
            } else {
                FontError::CouldNotLoad
            },
        ),
{
    let before = reports.take(bad);
    lemma_good_before(before, features_valid);
    lemma_good_count_stops(reports, features_valid, bad);
}

proof fn lemma_good_before(reports: Seq<ReportData>, features_valid: bool)
    requires
        forall|i: int|
            0 <= i < reports.len() ==> (#[trigger] reports[i]).loads && (features_valid
                || !reports[i].has_basic_letters),
    ensures
        good_count(reports, features_valid) == reports.len(),
    decreases reports.len(),
{
    if reports.len() > 0 {
        lemma_good_before(reports.drop_last(), features_valid);
        assert(reports[reports.len() - 1].loads);
    }
}

/// Red and blue change places in every whole pixel, green and the cover stay, and so does what is behind
/// the last whole pixel. Coverage is painted as it is.
pub proof fn red_and_blue_change_places(image: GlyphImage, pixel: int, rest: int)
    requires
        0 <= pixel,
        4 * pixel + 4 <= image.data@.len(),
    ensures
        ({
            let bytes = image.data@;
            let painted = painted_pixels(image);
            &&& painted.len() == bytes.len()
            &&& image.content is Mask ==> painted == bytes
            &&& image.content !is Mask ==> {
                &&& painted[4 * pixel] == bytes[4 * pixel + 2]
                &&& painted[4 * pixel + 1] == bytes[4 * pixel + 1]
                &&& painted[4 * pixel + 2] == bytes[4 * pixel]
                &&& painted[4 * pixel + 3] == bytes[4 * pixel + 3]
                &&& bytes.len() - bytes.len() % 4 <= rest < bytes.len() ==> painted[rest] == bytes[rest]
            }
        }),
{
}

/// The fonts that are loaded are those of the faces with basic letters, in their order.
pub proof fn fonts_are_loaded_in_order(items: Seq<ReportData>) -> (sources: Seq<int>)
    ensures
        sources.len() == fonts_from(items).len(),
        forall|i: int, j: int| 0 <= i < j < sources.len() ==> #[trigger] sources[i] < #[trigger] sources[j],
        forall|i: int|
            0 <= i < sources.len() ==> {
                &&& 0 <= #[trigger] sources[i] < items.len()
                &&& items[sources[i]].has_basic_letters
                &&& fonts_from(items)[i] == loaded_from(items[sources[i]])
            },
        forall|k: int|
            0 <= k < items.len() && (#[trigger] items[k]).has_basic_letters ==> sources.contains(k),
    decreases items.len(),
{
    if items.len() == 0 {
        Seq::empty()
    } else {
        let shorter = items.drop_last();
        let rest = fonts_are_loaded_in_order(shorter);
        let last = items.len() - 1;
        let sources = if items[last].has_basic_letters {
            rest.push(last)
        } else {
            rest
        };
        assert forall|k: int|
            0 <= k < items.len() && (#[trigger] items[k]).has_basic_letters implies sources.contains(k) by {
            if k < last {
                assert(shorter[k] == items[k]);
                let i = choose|i: int| 0 <= i < rest.len() && rest[i] == k;
                assert(sources[i] == k);
            } else {
                assert(sources[rest.len() as int] == k);
            }
        }
        assert forall|i: int| 0 <= i < rest.len() implies items[#[trigger] rest[i]]
            == shorter[rest[i]] by {}
        sources
    }
}

/// The faces that are left out are those without basic letters, in their order.
pub proof fn faces_are_left_out_in_order(items: Seq<ReportData>) -> (sources: Seq<int>)
    ensures
        sources.len() == faces_left_out(items).len(),
        forall|i: int, j: int| 0 <= i < j < sources.len() ==> #[trigger] sources[i] < #[trigger] sources[j],
        forall|i: int|
            0 <= i < sources.len() ==> {
                &&& 0 <= #[trigger] sources[i] < items.len()
                &&& !items[sources[i]].has_basic_letters
                &&& faces_left_out(items)[i] == items[sources[i]].face_id
            },
        forall|k: int|
            0 <= k < items.len() && !(#[trigger] items[k]).has_basic_letters ==> sources.contains(k),
    decreases items.len(),
{
    if items.len() == 0 {
        Seq::empty()
    } else {
        let shorter = items.drop_last();
        let rest = faces_are_left_out_in_order(shorter);
        let last = items.len() - 1;
        let sources = if !items[last].has_basic_letters {
            rest.push(last)
        } else {
            rest
        };
        assert forall|k: int|
            0 <= k < items.len() && !(#[trigger] items[k]).has_basic_letters implies sources.contains(k) by {
            if k < last {
                assert(shorter[k] == items[k]);
                let i = choose|i: int| 0 <= i < rest.len() && rest[i] == k;
                assert(sources[i] == k);
            } else {
                assert(sources[rest.len() as int] == k);
            }
        }
        assert forall|i: int| 0 <= i < rest.len() implies items[#[trigger] rest[i]]
            == shorter[rest[i]] by {}
        sources
    }
}

/// What a report says is what it holds, and a run is given by its font and its glyphs.
pub proof fn reports_and_runs_show_what_they_hold(report: FaceReport, runs: Seq<ShapedRun>, i: int)
    ensures
        report@.face_id == report.face_id,
        report@.post_script_name == report.post_script_name@,
        report@.loads == report.loads,
        report@.has_basic_letters == report.has_basic_letters,
        run_list(runs).len() == runs.len(),
        0 <= i < runs.len() ==> run_list(runs)[i].0 == runs[i].font_id && run_list(runs)[i].1
            == runs[i].glyphs@,
{
}

/// What is said of a list of reports is what each of them says, in order.
pub proof fn reports_are_listed_in_order(reports: Seq<FaceReport>, i: int)
    ensures
        report_list(reports).len() == reports.len(),
        0 <= i < reports.len() ==> report_list(reports)[i] == reports[i]@,
{
}

/// A font that is loaded from a face takes features, and is known for its symbols by the name of the
/// face.
pub proof fn fonts_are_loaded_from_their_face(report: ReportData)
    ensures
        loaded_from(report).face_id == report.face_id,
        loaded_from(report).takes_features,
        loaded_from(report).is_known_emoji_font == fonts::is_emoji_name(report.post_script_name),
{
}

} // verus!

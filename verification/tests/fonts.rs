//! Fonts: families, the best face, runs of glyphs and pixels.
use cosmic_text::fontdb::{Database, ID};
use gpui_mobile::charmap::check_lookup;
use gpui_mobile::font_book::{
    rasterize_glyph, swap_red_and_blue, FaceReport, FontBook, FontError, FontRun, FontSpan,
    GlyphContent, GlyphImage, LayoutGlyph, LoadedFont, RasterError,
};
use gpui_mobile::font_file::{check_offsets, count_claimed, find_face};
use gpui_mobile::font_system::{known_glyph, FontSystem};
use gpui_mobile::fonts::{
    check_features, check_is_known_emoji_font, find_best_match, find_family, is_sans_serif_request,
    FaceInfo, FaceTraits, FontFamilyCache, FontKey, FontRequest, FontStyle, NORMAL_STRETCH,
};
use gpui_mobile::geometry::{Pixels, Point};
use gpui_mobile::layout_tables::check_load;
use gpui_mobile::table_sums::check_sums;

fn face(face_id: u64, families: &[&str]) -> FaceInfo {
    FaceInfo {
        face_id,
        index: 0,
        families: families.iter().map(|family| family.to_string()).collect(),
        post_script_name: format!("Face{face_id}"),
        style: FontStyle::Normal,
        weight: 400,
        stretch: NORMAL_STRETCH,
    }
}

fn traits(style: FontStyle, weight: u16, stretch: u16) -> Option<FaceTraits> {
    Some(FaceTraits { style, weight, stretch })
}

fn glyph(metadata: usize, face_id: u64, name: Option<&str>, glyph_id: u16, start: usize) -> LayoutGlyph {
    let zero = Pixels { bits: 0 };
    LayoutGlyph {
        metadata,
        face_id,
        post_script_name: name.map(|name| name.to_string()),
        glyph_id,
        position: Point { x: zero, y: zero },
        start,
    }
}

#[test]
fn symbol_fonts_are_known_by_name() {
    assert!(check_is_known_emoji_font("NotoColorEmoji"));
    assert!(check_is_known_emoji_font("Some-emoji-Font"));
    assert!(!check_is_known_emoji_font("Roboto-Regular"));
}

#[test]
fn families_are_found_in_any_case_and_in_part() {
    let faces = vec![face(0, &["Roboto"]), face(1, &["Noto Serif", "Serif"]), face(2, &["DroidSans"])];
    assert_eq!(find_family(&faces, "ROBOTO"), vec![0]);
    assert_eq!(find_family(&faces, "serif"), vec![1]);
    assert_eq!(find_family(&faces, "Roboto Mono"), vec![0]);
    assert_eq!(find_family(&faces, "Courier"), Vec::<usize>::new());
}

#[test]
fn sans_requests_fall_back_to_common_fonts() {
    let faces = vec![face(0, &["Roboto"]), face(1, &["Serif"]), face(2, &["MiSans VF"])];
    assert!(is_sans_serif_request("Helvetica"));
    assert!(is_sans_serif_request("My SANS"));
    assert!(!is_sans_serif_request("Courier"));
    assert_eq!(find_family(&faces, "Helvetica"), vec![0, 2]);
}

#[test]
fn the_best_face_has_the_least_distance() {
    let request = FontRequest { style: FontStyle::Italic, weight: 700 };
    let faces = vec![
        traits(FontStyle::Normal, 700, 5),
        traits(FontStyle::Oblique, 700, 5),
        traits(FontStyle::Italic, 400, 5),
        traits(FontStyle::Italic, 700, 3),
        None,
    ];
    assert_eq!(find_best_match(request, &faces), 3);
    assert_eq!(find_best_match(request, &vec![traits(FontStyle::Normal, 100, 9)]), 0);
    assert_eq!(find_best_match(request, &vec![]), 0);
    assert_eq!(find_best_match(request, &vec![None, None]), 0);
    let equal = vec![traits(FontStyle::Italic, 600, 5), traits(FontStyle::Italic, 800, 5)];
    assert_eq!(find_best_match(request, &equal), 0);
    for stretch in [1, 2, 3, 4, 6, 7, 8, 9] {
        let wide = vec![traits(FontStyle::Italic, 700, stretch), traits(FontStyle::Italic, 601, 5)];
        assert_eq!(find_best_match(request, &wide), 1);
        let heavy = vec![traits(FontStyle::Italic, 599, 5), traits(FontStyle::Italic, 700, stretch)];
        assert_eq!(find_best_match(request, &heavy), 1);
    }
}

#[test]
fn features_are_tags_of_four_bytes() {
    assert!(check_features(&vec![]));
    assert!(check_features(&vec![("calt".to_string(), 0), ("ss01".to_string(), 1)]));
    assert!(!check_features(&vec![("liga1".to_string(), 1)]));
    assert!(check_features(&vec![("éé".to_string(), 1)]));
}

#[test]
fn faces_are_loaded_up_to_the_first_failure() {
    let report = |face_id: u64, loads: bool, has_basic_letters: bool| FaceReport {
        face_id,
        post_script_name: "NotoColorEmoji".to_string(),
        loads,
        has_basic_letters,
    };
    let mut book = FontBook::new();
    let reports = vec![report(4, true, true), report(5, true, false), report(6, true, true)];
    let (ids, left_out) = book.load_faces(&reports, &vec![]);
    assert_eq!(ids.unwrap().as_slice(), &[0, 1]);
    assert_eq!(left_out, vec![5]);
    assert_eq!(book.fonts[0], LoadedFont { face_id: 4, takes_features: true, is_known_emoji_font: true });

    let reports = vec![report(7, true, true), report(8, false, true), report(9, true, true)];
    let (ids, _) = book.load_faces(&reports, &vec![]);
    assert_eq!(ids.err(), Some(FontError::CouldNotLoad));
    assert_eq!(book.fonts.len(), 3);

    let (ids, _) = book.load_faces(&vec![report(1, true, true)], &vec![("x".to_string(), 1)]);
    assert_eq!(ids.err(), Some(FontError::IncorrectFeature));
    let (ids, _) = book.load_faces(&vec![report(1, true, false)], &vec![("x".to_string(), 1)]);
    assert_eq!(ids.unwrap().as_slice().len(), 0);
}

#[test]
fn lists_of_fonts_spill_in_order() {
    let reports: Vec<FaceReport> = (0..7)
        .map(|face_id| FaceReport {
            face_id,
            post_script_name: String::new(),
            loads: true,
            has_basic_letters: true,
        })
        .collect();
    let (ids, _) = FontBook::new().load_faces(&reports, &vec![]);
    let ids = ids.unwrap();
    assert_eq!(ids.as_slice(), &[0, 1, 2, 3, 4, 5, 6]);
    assert_eq!(ids.clone().as_slice(), ids.as_slice());
}

#[test]
fn glyphs_form_runs_of_one_font() {
    let mut book = FontBook {
        fonts: vec![
            LoadedFont { face_id: 10, takes_features: false, is_known_emoji_font: false },
            LoadedFont { face_id: 11, takes_features: false, is_known_emoji_font: false },
        ],
    };
    let glyphs = vec![
        glyph(0, 10, None, 5, 0),
        glyph(0, 10, None, 6, 1),
        glyph(0, 11, None, 7, 2),
        glyph(0, 12, Some("NotoColorEmoji"), 8, 3),
        glyph(0, 12, Some("NotoColorEmoji"), 3, 4),
        glyph(0, 13, None, 9, 5),
        glyph(0, 12, None, 4, 6),
        glyph(1, 10, None, 3, 7),
    ];
    let runs = book.shape_runs(&glyphs);
    let shape: Vec<(usize, Vec<(u32, usize, bool)>)> = runs
        .iter()
        .map(|run| {
            let glyphs = run.glyphs.iter().map(|glyph| (glyph.id, glyph.index, glyph.is_emoji));
            (run.font_id, glyphs.collect())
        })
        .collect();
    assert_eq!(
        shape,
        vec![
            (0, vec![(5, 0, false), (6, 1, false)]),
            (1, vec![(7, 2, false)]),
            (2, vec![(8, 3, true), (4, 6, true)]),
            (0, vec![(3, 7, false)]),
        ]
    );
    assert_eq!(book.fonts.len(), 3);
    assert!(book.shape_runs(&vec![]).is_empty());
}

#[test]
fn a_face_is_loaded_once() {
    let mut book = FontBook::new();
    let name = Some("Roboto".to_string());
    assert_eq!(book.font_id_for_face(9, &name), Some(0));
    assert_eq!(book.font_id_for_face(9, &name), Some(0));
    assert_eq!(book.font_id_for_face(8, &None), None);
    assert_eq!(book.fonts.len(), 1);
}

#[test]
fn pixels_swap_red_and_blue() {
    let mut bytes = vec![1, 2, 3, 4, 5, 6, 7, 8, 9];
    swap_red_and_blue(&mut bytes);
    assert_eq!(bytes, vec![3, 2, 1, 4, 7, 6, 5, 8, 9]);
    swap_red_and_blue(&mut bytes);
    assert_eq!(bytes, vec![1, 2, 3, 4, 5, 6, 7, 8, 9]);
}

#[test]
fn images_become_pixels() {
    let image = |content: GlyphContent| Some(GlyphImage { content, data: vec![1, 2, 3, 4] });
    assert_eq!(rasterize_glyph(1, 1, image(GlyphContent::Mask)), Ok(vec![1, 2, 3, 4]));
    assert_eq!(rasterize_glyph(1, 1, image(GlyphContent::Color)), Ok(vec![3, 2, 1, 4]));
    assert_eq!(rasterize_glyph(1, 1, image(GlyphContent::SubpixelMask)), Ok(vec![3, 2, 1, 4]));
    assert_eq!(rasterize_glyph(0, 1, image(GlyphContent::Mask)), Err(RasterError::EmptyBounds));
    assert_eq!(rasterize_glyph(1, 0, None), Err(RasterError::EmptyBounds));
    assert_eq!(rasterize_glyph(1, 1, None), Err(RasterError::CouldNotRender));
}

#[test]
fn glyph_zero_is_missing() {
    assert_eq!(known_glyph(Some(0)), None);
    assert_eq!(known_glyph(Some(7)), Some(7));
    assert_eq!(known_glyph(None), None);
}

#[test]
fn requests_are_remembered() {
    let key = |family: &str| FontKey::new(family.to_string(), vec![("calt".to_string(), 0)]);
    let mut book = FontBook::new();
    let reports = vec![FaceReport {
        face_id: 1,
        post_script_name: String::new(),
        loads: true,
        has_basic_letters: true,
    }];
    let (ids, _) = book.load_faces(&reports, &vec![]);
    let mut cache = FontFamilyCache::new();
    assert!(cache.get(&key("Roboto")).is_none());
    cache.insert(key("Roboto"), ids.unwrap());
    assert_eq!(cache.get(&key("Roboto")).unwrap().as_slice(), &[0]);
    assert!(cache.get(&key("Other")).is_none());
    assert!(cache.get(&FontKey::new("Roboto".to_string(), vec![])).is_none());
}

/// Puts a font file together from its tables.
fn sfnt(tables: &[(&[u8; 4], Vec<u8>)]) -> Vec<u8> {
    let mut file: Vec<u8> = vec![0, 1, 0, 0];
    file.extend((tables.len() as u16).to_be_bytes());
    file.extend([0u8; 6]);
    let mut offset = 12 + 16 * tables.len();
    for (tag, data) in tables {
        file.extend(*tag);
        file.extend([0u8; 4]);
        file.extend((offset as u32).to_be_bytes());
        file.extend((data.len() as u32).to_be_bytes());
        offset += data.len().div_ceil(4) * 4;
    }
    for (_, data) in tables {
        file.extend(data);
        while file.len() % 4 != 0 {
            file.push(0);
        }
    }
    file
}

fn be(values: &[u16]) -> Vec<u8> {
    values.iter().flat_map(|value| value.to_be_bytes()).collect()
}

/// A small font with the given family and PostScript name that maps `m` to a glyph.
fn font_file(family: &str, post_script_name: &str, weight: u16, glyph_of_m: u16) -> Vec<u8> {
    let cmap = be(&[
        0, 1, 3, 1, 0, 12, 4, 32, 0, 4, 4, 1, 0, 0x6d, 0xffff, 0, 0x6d, 0xffff,
        glyph_of_m.wrapping_sub(0x6d), 1, 0, 0,
    ]);
    font_file_with(family, post_script_name, weight, 5, cmap)
}

/// A character map of one group.
fn group_map(first: u32, last: u32, glyph: u32) -> Vec<u8> {
    let mut cmap = be(&[0, 1, 3, 10, 0, 12, 12, 0, 0, 28, 0, 0, 0, 1]);
    for value in [first, last, glyph] {
        cmap.extend(value.to_be_bytes());
    }
    cmap
}

/// A small font with the given names, weight, width and character map.
fn font_file_with(
    family: &str,
    post_script_name: &str,
    weight: u16,
    width: u16,
    cmap: Vec<u8>,
) -> Vec<u8> {
    sfnt(&font_tables(family, post_script_name, weight, width, cmap))
}

/// A small font with a layout table.
fn font_file_laid_out(tag: &'static [u8; 4], table: Vec<u8>) -> Vec<u8> {
    let mut tables = font_tables("Mine", "Mine", 400, 5, group_map(0x6d, 0x6d, 1));
    tables.insert(0, (tag, table));
    sfnt(&tables)
}

/// A layout table with one lookup of one subtable.
fn layout_table(kind: u16, subtable: &[u16]) -> Vec<u8> {
    let mut table = be(&[1, 0, 10, 12, 14, 0, 0, 1, 4, kind, 0, 1, 8]);
    table.extend(be(subtable));
    table
}

fn font_tables(
    family: &str,
    post_script_name: &str,
    weight: u16,
    width: u16,
    cmap: Vec<u8>,
) -> Vec<(&'static [u8; 4], Vec<u8>)> {
    let mut head = be(&[1, 0, 0, 1, 0, 0, 0x5f0f, 0x3cf5, 0, 1000]);
    head.extend([0u8; 16]);
    head.extend(be(&[0, 0, 100, 100, 0, 8, 2, 0, 0]));
    let hhea = be(&[1, 0, 800, 0, 0, 500, 0, 0, 500, 1, 0, 0, 0, 0, 0, 0, 0, 2]);
    let maxp = be(&[0, 0x5000, 2]);
    let hmtx = be(&[500, 0, 500, 0]);
    let mut os2 = be(&[4, 500, weight, width]);
    os2.extend(vec![0u8; 88]);
    let names: Vec<Vec<u8>> = [family, post_script_name]
        .iter()
        .map(|name| name.encode_utf16().flat_map(|unit| unit.to_be_bytes()).collect())
        .collect();
    let mut name = be(&[0, 2, 30]);
    name.extend(be(&[3, 1, 0x409, 1, names[0].len() as u16, 0]));
    name.extend(be(&[3, 1, 0x409, 6, names[1].len() as u16, names[0].len() as u16]));
    name.extend(&names[0]);
    name.extend(&names[1]);
    let post = {
        let mut post = be(&[3, 0]);
        post.extend([0u8; 28]);
        post
    };
    vec![
        (b"OS/2", os2),
        (b"cmap", cmap),
        (b"head", head),
        (b"hhea", hhea),
        (b"hmtx", hmtx),
        (b"maxp", maxp),
        (b"name", name),
        (b"post", post),
    ]
}

fn request(weight: i32) -> FontRequest {
    FontRequest { style: FontStyle::Normal, weight }
}

fn key(family: &str) -> FontKey {
    FontKey::new(family.to_string(), vec![])
}

#[test]
fn font_files_are_read_and_searched() {
    let mut system = FontSystem::new();
    system.add_fonts(vec![
        font_file("Mine", "Mine-Regular", 400, 1),
        font_file("Mine", "Mine-Bold", 700, 1),
        font_file("Other", "Other-Regular", 400, 1),
        b"no font at all".to_vec(),
    ]);
    assert_eq!(system.all_font_names(), vec!["Mine", "Other"]);
    let faces = system.faces();
    assert_eq!(faces.iter().map(|face| face.face_id).collect::<Vec<u64>>(), vec![0, 1, 2]);
    assert_eq!(faces[0].families, vec!["Mine"]);
    assert_eq!(faces[1].post_script_name, "Mine-Bold");
    assert_eq!(faces[1].weight, 700);
    assert_eq!(faces[1].stretch, NORMAL_STRETCH);

    let bold = system.font_id(key("Mine"), "Mine", request(800)).unwrap();
    let regular = system.font_id(key("Mine"), "Mine", request(300)).unwrap();
    assert_eq!(system.book.fonts[bold].face_id, 1);
    assert_eq!(system.book.fonts[regular].face_id, 0);
    assert_eq!(system.book.fonts.len(), 2);
    assert_eq!(system.glyph_for_char(bold, 'm'), Some(1));
    assert_eq!(system.glyph_for_char(bold, 'x'), None);
}

#[test]
fn faces_without_basic_letters_are_left_out() {
    let mut system = FontSystem::new();
    system.add_fonts(vec![
        font_file("Signs", "Signs", 400, 0),
        font_file("Letters", "Letters", 400, 1),
    ]);
    let font = system.font_id(key("Signs"), "Signs", request(400)).unwrap();
    assert_eq!(system.all_font_names(), vec!["Letters"]);
    assert_eq!(system.book.fonts[font].face_id, 1);
}

#[test]
fn dropped_faces_make_room_for_others() {
    let letters = || font_file("Letters", "Letters", 400, 1);
    let signs = |name: &str| font_file("Signs", name, 400, 0);
    let later: Vec<Vec<u8>> =
        ["A", "B", "C"].iter().map(|name| font_file("Later", name, 400, 1)).collect();

    let mut system = FontSystem::new();
    system.add_fonts(vec![signs("One"), letters(), signs("Two")]);
    let ids = system.load_family("Signs", &vec![]);
    assert_eq!(ids.unwrap().as_slice().len(), 0);
    system.add_fonts(later.clone());
    let faces = system.faces();
    let names: Vec<&str> = faces.iter().map(|face| face.post_script_name.as_str()).collect();
    let numbers: Vec<u64> = faces.iter().map(|face| face.face_id).collect();
    assert_eq!(numbers, vec![4, 1, 3, 5]);

    let mut database = Database::new();
    for file in [signs("One"), letters(), signs("Two")] {
        database.load_font_data(file);
    }
    let dropped: Vec<ID> = database
        .faces()
        .filter(|face| face.families[0].0 == "Signs")
        .map(|face| face.id)
        .collect();
    for id in dropped {
        database.remove_face(id);
    }
    for file in later {
        database.load_font_data(file);
    }
    let expected: Vec<&str> = database.faces().map(|face| face.post_script_name.as_str()).collect();
    assert_eq!(names, expected);
    assert_eq!(names, vec!["B", "Letters", "A", "C"]);
}

#[test]
fn requests_fall_back_to_any_font() {
    let mut system = FontSystem::new();
    assert_eq!(
        system.font_id(key("Mine"), "Mine", request(400)).err(),
        Some(FontError::NoFonts)
    );
    system.add_fonts(vec![font_file("Letters", "Letters", 400, 1)]);
    let font = system.font_id(key("Quite Different"), "Quite Different", request(400)).unwrap();
    assert_eq!(system.book.fonts[font].face_id, 0);
    assert!(!system.book.fonts[font].is_known_emoji_font);

    system.add_fonts(vec![font_file("Roboto", "Roboto", 400, 1)]);
    let standard = system.font_id(key("Courier"), "Courier", request(400)).unwrap();
    assert_eq!(system.book.fonts[standard].face_id, 1);
}

#[test]
fn a_family_is_loaded_once() {
    let mut system = FontSystem::new();
    system.add_fonts(vec![font_file("Mine", "Mine", 400, 1)]);
    let first = system.font_id(key("Mine"), "Mine", request(400)).unwrap();
    let second = system.font_id(key("Mine"), "Mine", request(900)).unwrap();
    assert_eq!(first, second);
    assert_eq!(system.book.fonts.len(), 1);
    let bad = FontKey::new("Mine".to_string(), vec![("bad".to_string(), 1)]);
    assert_eq!(system.font_id(bad, "Mine", request(400)).err(), Some(FontError::IncorrectFeature));
}

#[test]
fn lines_are_split_into_spans() {
    let mut system = FontSystem::new();
    system.add_fonts(vec![font_file("Mine", "Mine", 400, 1)]);
    let font = system.font_id(key("Mine"), "Mine", request(400)).unwrap();
    let spans = system.run_spans(&vec![
        FontRun { len: 3, font_id: font },
        FontRun { len: 4, font_id: 9 },
    ]);
    assert_eq!(
        spans,
        vec![
            FontSpan { start: 0, end: 3, font_id: Some(font) },
            FontSpan { start: 3, end: 7, font_id: None },
        ]
    );
    assert_eq!(system.fallback_name(0), Some("Mine".to_string()));
    let runs = system.shape_runs(&vec![glyph(font, 0, None, 1, 0)]);
    assert_eq!(runs.len(), 1);
}

#[test]
fn widths_are_read_and_weighed() {
    let mut system = FontSystem::new();
    let map = || group_map(0x6d, 0x6d, 1);
    let files = (1..=9).map(|width| font_file_with("Mine", &format!("W{width}"), 400, width, map()));
    system.add_fonts(files.collect());
    let widths: Vec<u16> = system.faces().iter().map(|face| face.stretch).collect();
    assert_eq!(widths, (1..=9).collect::<Vec<u16>>());
    let font = system.font_id(key("Mine"), "Mine", request(400)).unwrap();
    assert_eq!(system.book.fonts[font].face_id, 4);
    assert_eq!(system.glyph_for_char(font, 'm'), Some(1));
}

#[test]
fn characters_whose_glyphs_overflow_are_not_looked_up() {
    let late = font_file_with("Mine", "Late", 400, 5, group_map(0x6d, 0x6f, 0xffff_fffe));
    assert!(check_lookup(&late, 0, 'm') && check_lookup(&late, 0, 'n'));
    assert!(!check_lookup(&late, 0, 'o') && check_lookup(&late, 0, 'p') && check_lookup(&late, 1, 'o'));
    let early = font_file_with("Other", "Early", 400, 5, group_map(0x6c, 0x6e, 0xffff_ffff));
    assert!(check_lookup(&early, 0, 'l') && !check_lookup(&early, 0, 'm'));

    let mut system = FontSystem::new();
    system.add_fonts(vec![early, late]);
    assert_eq!(system.all_font_names(), vec!["Mine", "Other"]);
    let font = system.font_id(key("Mine"), "Mine", request(400)).unwrap();
    assert!(system.can_look_up(font, 'n') && !system.can_look_up(font, 'o'));
    assert_eq!(system.glyph_for_char(font, 'n'), Some(0xffff));
    assert_eq!(
        system.font_id(key("Other"), "Other", request(400)).err(),
        Some(FontError::CouldNotLoad)
    );
    assert_eq!(system.all_font_names(), vec!["Mine", "Other"]);
}

#[test]
fn only_the_map_that_is_searched_counts() {
    let overflows = group_map(0x6d, 0x6f, u32::MAX)[12..].to_vec();
    let fits = group_map(0x6d, 0x6d, 1)[12..].to_vec();
    let two = |first: (u16, u16), second: (u16, u16), maps: [&Vec<u8>; 2]| {
        let mut cmap = be(&[0, 2, first.0, first.1, 0, 20, second.0, second.1, 0, 48]);
        cmap.extend(maps[0]);
        cmap.extend(maps[1]);
        sfnt(&[(b"cmap", cmap)])
    };
    assert!(check_lookup(&two((3, 10), (3, 10), [&overflows, &fits]), 0, 'n'));
    assert!(!check_lookup(&two((3, 10), (3, 10), [&fits, &overflows]), 0, 'n'));
    assert!(check_lookup(&two((3, 10), (1, 0), [&fits, &overflows]), 0, 'n'));
    assert!(!check_lookup(&two((3, 0), (3, 10), [&overflows, &fits]), 0, 'n'));
    assert!(check_lookup(&two((3, 0), (3, 10), [&fits, &overflows]), 0, 'n'));
    let cut_off = |format: u16| sfnt(&[(b"cmap", be(&[0, 1, 3, 10, 0, 12, format]))]);
    assert!(!check_lookup(&cut_off(12), 0, 'n') && check_lookup(&cut_off(4), 0, 'n'));
    assert!(check_lookup(&vec![], 0, 'n'));
}

fn loads(file: Vec<u8>) -> bool {
    let safe = check_load(&file, 0);
    let mut system = FontSystem::new();
    system.add_fonts(vec![file]);
    assert_eq!(system.all_font_names(), vec!["Mine"]);
    let font = system.font_id(key("Mine"), "Mine", request(400));
    assert_eq!(font.is_ok(), safe);
    if !safe {
        assert_eq!(font.err(), Some(FontError::CouldNotLoad));
        assert_eq!(system.fallback_name(0), None);
    }
    safe
}

#[test]
fn layout_tables_are_read() {
    assert!(loads(font_file_laid_out(b"GSUB", layout_table(1, &[1, 6, 1, 1, 1, 3]))));
    assert!(loads(font_file_laid_out(b"GSUB", layout_table(7, &[1, 1, 0, 8, 1, 6, 1, 1, 1, 3]))));
    assert!(loads(font_file_laid_out(b"GPOS", layout_table(9, &[1, 1, 0, 8, 1, 8, 1, 5, 1, 1, 3]))));
}

#[test]
fn extensions_of_extensions_are_not_followed() {
    assert!(!loads(font_file_laid_out(b"GSUB", layout_table(7, &[1, 7, 0, 0]))));
    assert!(!loads(font_file_laid_out(b"GPOS", layout_table(9, &[1, 9, 0, 0]))));
    assert!(loads(font_file_laid_out(b"GSUB", layout_table(7, &[2, 7, 0, 0]))));
    assert!(loads(font_file_laid_out(b"GPOS", layout_table(7, &[1, 7, 0, 0]))));
}

#[test]
fn sizes_of_device_tables_ascend() {
    let adjustment = |first: u16, last: u16, format: u16| {
        let subtable = [1, 10, 0x11, 5, 16, 1, 1, 3, first, last, format, 0];
        font_file_laid_out(b"GPOS", layout_table(1, &subtable))
    };
    assert!(loads(adjustment(9, 10, 1)));
    assert!(!loads(adjustment(10, 9, 1)));
    assert!(!loads(adjustment(0, 0xffff, 3)));
    assert!(loads(adjustment(10, 9, 4)));
}

#[test]
fn glyphs_that_are_covered_are_counted() {
    let covered = |kind: u16, subtable: &[u16], count: u16, there: usize| {
        let mut table = layout_table(kind, subtable);
        table.extend(be(&[1, count]));
        table.extend(vec![0u8; 2 * there]);
        font_file_laid_out(b"GSUB", table)
    };
    assert!(loads(covered(1, &[1, 6, 1], 0xfffe, 0xffff)));
    assert!(!loads(covered(1, &[1, 6, 1], 0xffff, 0xffff)));
    assert!(loads(covered(1, &[1, 6, 1], 0xffff, 0xfffe)));
    assert!(!loads(covered(5, &[3, 1, 0, 8], 0xffff, 0xffff)));
    assert!(!loads(covered(6, &[3, 1, 0, 1, 14, 0, 0], 0xffff, 0xffff)));
}

#[test]
fn tables_are_counted() {
    let crowded = |count: u16| {
        let mut file = sfnt(&[]);
        file[4..6].copy_from_slice(&count.to_be_bytes());
        file.extend(vec![0u8; 16 * 0xffff]);
        file
    };
    assert!(check_load(&crowded(0xfffe), 0));
    assert!(!check_load(&crowded(0xffff), 0));
    assert!(check_load(&sfnt(&[]), 0) && check_load(&vec![], 0));
}

/// Whether loading a table would form no sum beyond four bytes. None is beyond eight.
fn stays_short(name: &[u8; 4], table: Vec<u8>) -> bool {
    let file = sfnt(&[(name, table)]);
    assert!(check_sums(&file, 0, u64::MAX) && check_load(&file, 0));
    check_sums(&file, 0, u32::MAX as u64)
}

#[test]
fn lists_end_where_addresses_can_tell() {
    let pictures = |version: u16, count: [u16; 2]| be(&[version, 1, count[0], count[1]]);
    assert!(stays_short(b"sbix", pictures(1, [0x3fff, 0xfffd])));
    assert!(!stays_short(b"sbix", pictures(1, [0x3fff, 0xfffe])));
    assert!(stays_short(b"sbix", pictures(2, [0xffff, 0xffff])));

    let map = |words: &[u16]| {
        let mut cmap = be(&[0, 1, 3, 10, 0, 12]);
        cmap.extend(be(words));
        cmap
    };
    assert!(stays_short(b"cmap", map(&[12, 0, 0, 0, 0, 0, 0x1555, 0x5553])));
    assert!(!stays_short(b"cmap", map(&[12, 0, 0, 0, 0, 0, 0x1555, 0x5555])));
    assert!(!stays_short(b"cmap", map(&[13, 0, 0, 0, 0, 0, 0xffff, 0xffff])));
    assert!(!stays_short(b"cmap", map(&[14, 0, 0, 0x2000, 0])));
    assert!(!stays_short(b"cmap", map(&[10, 0, 0, 0, 0, 0, 0, 0, 0x8000, 0])));
    assert!(stays_short(b"cmap", map(&[4, 0, 0, 0, 0, 0, 0xffff, 0xffff])));

    let layers = |count: u16| be(&[1, 0, 0, 0, 0, 0, 0, 0, 0, 0, 34, 0, 0, 0, 0, 0, 0, count, 0]);
    assert!(stays_short(b"COLR", layers(0x3fff)));
    assert!(!stays_short(b"COLR", layers(0x4000)));

    let varied = |count: u16| be(&[1, 1, 0, 0, 0, 0, 14, 1, 0, count, 0]);
    assert!(stays_short(b"GPOS", varied(0x1fff)) && !stays_short(b"GSUB", varied(0x2000)));
}

#[test]
fn variations_are_placed_where_addresses_can_tell() {
    let store = |high: u16, low: u16| [1, high, low, 0];
    let widths = |store: [u16; 4]| be(&[&[1, 0, 0, 8][..], &store[..]].concat());
    assert!(stays_short(b"HVAR", widths(store(0xffff, 0xfff5))));
    assert!(!stays_short(b"HVAR", widths(store(0xffff, 0xfff6))));
    assert!(!stays_short(b"VVAR", widths(store(0xffff, 0xffff))));
    assert!(stays_short(b"VVAR", widths([2, 0xffff, 0xffff, 0])));
    let metrics = be(&[&[1, 0, 0, 8, 1, 12][..], &store(0xffff, 0xfff2)[..]].concat());
    assert!(!stays_short(b"MVAR", metrics));
    let classes = |version| be(&[&[1, version, 0, 0, 0, 0, 0, 0, 18][..], &store(0xffff, 0xfffe)[..]].concat());
    assert!(!stays_short(b"GDEF", classes(3)) && stays_short(b"GDEF", classes(2)));
}

#[test]
fn matrices_end_where_addresses_can_tell() {
    let pairs = [2, 22, 0xff, 0xff, 18, 18, 0xffff, 0xffff, 0, 1, 0, 1, 5];
    let marks = [1, 18, 18, 0xffff, 12, 14, 0, 0xffff, 0, 1, 1, 5];
    for (kind, subtable) in [(2, &pairs[..]), (4, &marks[..]), (6, &marks[..])] {
        assert!(check_load(&font_file_laid_out(b"GPOS", layout_table(kind, subtable)), 0));
    }
}

/// An index with items of these lengths.
fn index(items: &[&[u8]]) -> Vec<u8> {
    let mut bytes = (items.len() as u16).to_be_bytes().to_vec();
    if !items.is_empty() {
        bytes.push(1);
        let mut offset = 1;
        bytes.push(offset);
        for item in items {
            offset += item.len() as u8;
            bytes.push(offset);
        }
        bytes.extend(items.concat());
    }
    bytes
}

/// An index of one item that is as long as four bytes say.
fn long_index(last: u32) -> Vec<u8> {
    let mut bytes = vec![0, 1, 4, 0, 0, 0, 1];
    bytes.extend(last.to_be_bytes());
    bytes
}

#[test]
fn outlines_end_where_addresses_can_tell() {
    let outlines = |dict: &[u8], strings: Vec<u8>| {
        let mut table = vec![1, 0, 4, 1];
        table.extend(index(&[b"Mine"]));
        table.extend(index(&[dict]));
        table.extend(strings);
        table.extend(index(&[]));
        table
    };
    assert!(stays_short(b"CFF ", outlines(&[], index(&[]))));
    assert!(stays_short(b"CFF ", outlines(&[], long_index(0x7fff_ffff))));
    assert!(!stays_short(b"CFF ", outlines(&[], long_index(u32::MAX))));

    // Behind a dictionary of seven bytes, and two indices without items, the table goes on at twenty-nine.
    let places = |operand: &[u8], operator: &[u8]| {
        let mut dict = operand.to_vec();
        dict.extend(operator);
        dict.resize(7, 22);
        outlines(&dict, index(&[]))
    };
    let placed = |operand: &[u8], operator: &[u8]| {
        let mut table = places(operand, operator);
        assert_eq!(table.len(), 29);
        table.extend(long_index(u32::MAX));
        table
    };
    // Twenty-nine is written as 168, as 28 0 29 and as 29 0 0 0 29.
    assert!(!stays_short(b"CFF ", placed(&[168], &[17])));
    assert!(!stays_short(b"CFF ", placed(&[28, 0, 29], &[17])));
    assert!(!stays_short(b"CFF ", placed(&[29, 0, 0, 0, 29], &[17])));
    assert!(!stays_short(b"CFF ", placed(&[168], &[12, 36])));
    assert!(stays_short(b"CFF ", placed(&[168], &[15])));
    assert!(stays_short(b"CFF ", placed(&[168, 168], &[17])));
    assert!(stays_short(b"CFF ", placed(&[110], &[17])));
    assert!(!stays_short(b"CFF ", placed(&[30, 0x2a, 0x9f], &[17])));

    // A private dictionary of two bytes that places its subroutines behind itself.
    let mut private = places(&[141, 168], &[18]);
    private.extend([141, 19]);
    assert!(stays_short(b"CFF ", private.clone()));
    private.extend(long_index(u32::MAX));
    assert!(!stays_short(b"CFF ", private));
}

#[test]
fn varying_outlines_end_where_addresses_can_tell() {
    // The dictionary takes four bytes behind the header, the subroutines stand behind it at nine, and
    // what it places at thirteen.
    let table = |operand: u8, operator: &[u8], rest: &[u8]| {
        let mut table = vec![2, 0, 5, 0, 4, operand];
        table.extend(operator);
        table.resize(9, 22);
        table.extend([0, 0, 0, 0]);
        table.extend(rest);
        table
    };
    let long = [0, 0, 0, 1, 4, 0, 0, 0, 1, 0xff, 0xff, 0xff, 0xff];
    assert!(!stays_short(b"CFF2", table(152, &[17], &long)));
    assert!(!stays_short(b"CFF2", table(152, &[12, 36], &long)));
    assert!(stays_short(b"CFF2", table(152, &[17], &[0, 0, 0, 0])));
    assert!(!stays_short(b"CFF2", table(152, &[24], &[0, 8, 0, 1, 0xff, 0xff, 0xff, 0xff, 0, 0])));
    assert!(stays_short(b"CFF2", table(152, &[24], &[0, 8, 0, 2, 0xff, 0xff, 0xff, 0xff, 0, 0])));

    // One font dictionary of three bytes at twenty, which places a private one of two at twenty-three.
    let font_dicts = |subroutines: &[u8]| {
        let mut rest = vec![0, 0, 0, 1, 1, 1, 4, 141, 162, 18, 141, 19];
        rest.extend(subroutines);
        table(152, &[12, 36], &rest)
    };
    assert!(stays_short(b"CFF2", font_dicts(&[0, 0, 0, 0])));
    assert!(!stays_short(b"CFF2", font_dicts(&long)));
}

/// A collection of fonts.
fn collection(fonts: &[Vec<u8>], claimed: u32) -> Vec<u8> {
    let mut file = b"ttcf\0\x01\0\0".to_vec();
    file.extend(claimed.to_be_bytes());
    let mut offset = 12 + 4 * fonts.len();
    for font in fonts {
        file.extend((offset as u32).to_be_bytes());
        offset += font.len();
    }
    let mut start = 12 + 4 * fonts.len();
    for font in fonts {
        let mut font = font.clone();
        let tables = u16::from_be_bytes([font[4], font[5]]) as usize;
        for table in 0..tables {
            let at = 12 + 16 * table + 8;
            let bytes = [font[at], font[at + 1], font[at + 2], font[at + 3]];
            let moved = u32::from_be_bytes(bytes) + start as u32;
            font[at..at + 4].copy_from_slice(&moved.to_be_bytes());
        }
        start += font.len();
        file.extend(font);
    }
    file
}

#[test]
fn collections_hold_several_faces() {
    let fonts = [font_file("Mine", "One", 400, 1), font_file("Mine", "Two", 700, 1)];
    let mut system = FontSystem::new();
    system.add_fonts(vec![font_file("Other", "Zero", 400, 1), collection(&fonts, 2)]);
    let faces = system.faces();
    let names: Vec<&str> = faces.iter().map(|face| face.post_script_name.as_str()).collect();
    assert_eq!(names, vec!["Zero", "One", "Two"]);
    assert_eq!(faces.iter().map(|face| face.index).collect::<Vec<u32>>(), vec![0, 0, 1]);
    let bold = system.font_id(key("Mine"), "Mine", request(700)).unwrap();
    assert_eq!(system.book.fonts[bold].face_id, 2);
    assert_eq!(system.glyph_for_char(bold, 'm'), Some(1));

    let claims_too_much = collection(&fonts, u32::MAX);
    assert_eq!(count_claimed(&collection(&fonts, 2)), 2);
    assert_eq!(count_claimed(&fonts[0]), 1);
    assert_eq!(count_claimed(&claims_too_much), u64::from(u32::MAX));
    assert!(check_offsets(&collection(&fonts, 2)) && !check_offsets(&claims_too_much));
    assert_eq!(find_face(&collection(&fonts, 2), 0), Some(20));
    assert_eq!(find_face(&collection(&fonts, 2), 2), None);
    assert_eq!((find_face(&fonts[0], 0), find_face(&fonts[0], 1)), (Some(0), None));
    system.add_fonts(vec![claims_too_much]);
    assert_eq!(system.faces().len(), 3);
}

#[test]
fn dropped_faces_have_no_fallback_name() {
    let mut system = FontSystem::new();
    system.add_fonts(vec![font_file("Signs", "Signs", 400, 0), font_file("Letters", "L", 400, 1)]);
    assert_eq!(system.fallback_name(0), Some("Signs".to_string()));
    assert!(system.load_family("Signs", &vec![]).unwrap().as_slice().is_empty());
    assert_eq!(system.fallback_name(0), None);
    assert_eq!(system.fallback_name(1), Some("L".to_string()));
    assert_eq!(system.fallback_name(9), None);
}

use polymesh_rw::content::{ContentError, FileContent};
use polymesh_rw::field::FoamField;
use polymesh_rw::header::FoamFile;
use polymesh_rw::mesh::{single_i_data, BoundaryData, FaceData, NeighbourData, OwnerData, SetData};
use polymesh_rw::result::Dimensions;
use polymesh_rw::text::{chars_of, usize_val, ParseError};
use polymesh_rw::value::{FoamStructure, FoamValue};
use polymesh_rw::writer::{
    bool_as_num, usize_to_string, write_fixed_witdh_data, write_multi_data, write_single_data,
    write_vector_content,
};
use polymesh_rw::zones::{CellZone, FaceZone, PointZone, ZoneData};

fn s(t: &str) -> String {
    t.to_string()
}

fn strings(v: &[&str]) -> Vec<String> {
    v.iter().map(|x| x.to_string()).collect()
}

fn value(input: &str) -> FoamValue {
    FoamValue::parse(input).unwrap().1
}

#[test]
fn integer_float_and_negative() {
    assert_eq!(value("5;"), FoamValue::Integer(5));
    assert_eq!(value("5.0;"), FoamValue::Float(s("5.0")));
    assert_eq!(value("-5;"), FoamValue::Float(s("-5")));
    match value("-5;") {
        FoamValue::Float(t) => assert_eq!(t.parse::<f64>().unwrap(), -5.0),
        other => panic!("{:?}", other),
    }
    assert_eq!(value("  42  ;"), FoamValue::Integer(42));
    assert_eq!(value("1e-3;"), FoamValue::Float(s("1e-3")));
    assert_eq!(value("18446744073709551616;"), FoamValue::Float(s("18446744073709551616")));
    assert_eq!(value("patch;"), FoamValue::String(s("patch")));
    assert_eq!(value("constant (1 0 0);"), FoamValue::String(s("constant (1 0 0)")));
}

#[test]
fn fields_parse() {
    assert_eq!(value("uniform 10.5;"), FoamValue::Field(FoamField::UniformScalar(s("10.5"))));
    assert_eq!(
        value("uniform (1 0 0);"),
        FoamValue::Field(FoamField::UniformVector(strings(&["1", "0", "0"])))
    );
    assert_eq!(
        value("nonuniform List<scalar> 3 (1.0 2.0 3.0);"),
        FoamValue::Field(FoamField::Scalar(strings(&["1.0", "2.0", "3.0"])))
    );
    assert_eq!(
        value("nonuniform List<vector> 2 ((1 2 3) (4 5 6));"),
        FoamValue::Field(FoamField::Vector(vec![strings(&["1", "2", "3"]), strings(&["4", "5", "6"])]))
    );
}

#[test]
fn field_write_then_parse() {
    let fields = vec![
        FoamField::UniformScalar(s("10.5")),
        FoamField::UniformVector(strings(&["1", "0", "0"])),
        FoamField::Scalar(strings(&["1.0", "2.0", "3.0"])),
        FoamField::Vector(vec![strings(&["1", "2", "3"]), strings(&["-4e2", "5.", ".6"])]),
        FoamField::Scalar(vec![]),
    ];
    for f in fields {
        let text = format!("{};", f.write());
        let (rest, g) = FoamField::parse(&text).unwrap();
        assert_eq!(rest, "");
        assert_eq!(f, g);
        let v = FoamValue::Field(f);
        let (_, w) = FoamValue::parse(&v.write()).unwrap();
        assert_eq!(v, w);
    }
    assert_eq!(
        FoamField::Scalar(strings(&["1.0", "2.0", "3.0"])).write(),
        "nonuniform List<scalar>\n3\n(\n1.0\n2.0\n3.0\n)\n"
    );
}

#[test]
fn word_list() {
    assert_eq!(value("List<word> 2(foo bar);"), FoamValue::List(strings(&["foo", "bar"])));
    let l = FoamValue::List(strings(&["foo", "bar"]));
    assert_eq!(l.write(), "List<word> 2\n(\nfoo\nbar\n)\n;\n");
    assert_eq!(FoamValue::parse(&l.write()).unwrap().1, l);
}

#[test]
fn named_nesting() {
    let (_, st) = FoamValue::parse_map("down { type symmetryPlane; }");
    let expected = FoamStructure {
        name: s("down"),
        content: vec![(s("type"), FoamValue::String(s("symmetryPlane")))],
    };
    assert_eq!(st.content, vec![(s("down"), FoamValue::Structure(expected))]);
}

#[test]
fn declared_count_must_match() {
    assert!(FoamField::parse("nonuniform List<scalar> 3 (1.0 2.0);").is_err());
    assert!(FoamField::parse("nonuniform List<scalar> 1 (1.0 2.0);").is_err());
    assert_eq!(
        value("nonuniform List<scalar> 3 (1.0 2.0);"),
        FoamValue::String(s("nonuniform List<scalar> 3 (1.0 2.0)"))
    );
    assert!(single_i_data("3 (1 2)").is_err());
    let zone = "z { type cellZone; cellLabels List<label> 3(1 2); }";
    assert!(CellZone::parse_at(&chars_of(zone), 0).is_none());
    let f = FoamField::Scalar(strings(&["1.0", "2.0"]));
    let mut text = f.write();
    for _ in 0..3 {
        assert!(text.starts_with("nonuniform List<scalar>\n2\n"));
        let (_, g) = FoamField::parse(&format!("{};", text)).unwrap();
        assert_eq!(g, f);
        text = g.write();
    }
}

#[test]
fn structure_body_keeps_order() {
    let input = "down{type patch;nFaces 0;startFace 10;}right{type patch;nFaces 5;startFace 20;}";
    let (rest, st) = FoamValue::parse_map(input);
    assert_eq!(rest, "");
    let keys: Vec<String> = st.content.iter().map(|(k, _)| k.clone()).collect();
    assert_eq!(keys, strings(&["down", "right"]));
    let down = st.get(&s("down")).unwrap();
    match down {
        FoamValue::Structure(d) => {
            assert_eq!(d.name, "down");
            assert_eq!(d.get(&s("nFaces")), Some(&FoamValue::Integer(0)));
            assert_eq!(d.get(&s("startFace")), Some(&FoamValue::Integer(10)));
        }
        other => panic!("{:?}", other),
    }
    let text = st.write();
    let (_, again) = FoamStructure::parse(&format!("body{}", &text[text.find('\n').unwrap()..])).unwrap();
    let keys: Vec<String> = again.content.iter().map(|(k, _)| k.clone()).collect();
    assert_eq!(keys, strings(&["down", "right"]));
    assert_eq!(again.content, st.content);
}

#[test]
fn duplicate_key_keeps_place() {
    let (_, st) = FoamValue::parse_map("a 1; b 2; a 3;");
    assert_eq!(
        st.content,
        vec![(s("a"), FoamValue::Integer(3)), (s("b"), FoamValue::Integer(2))]
    );
    let mut st = st;
    st.insert(s("c"), FoamValue::Integer(4));
    st.insert(s("b"), FoamValue::String(s("x")));
    assert_eq!(st.len(), 3);
    assert_eq!(st.content[1], (s("b"), FoamValue::String(s("x"))));
    assert_eq!(st.get(&s("zz")), None);
}

#[test]
fn comments_are_skipped() {
    let (rest, st) = FoamValue::parse_map("// line\n/* block\n */ a 1; // trailing\n");
    assert_eq!(st.content, vec![(s("a"), FoamValue::Integer(1))]);
    assert_eq!(rest, " // trailing\n");
}

#[test]
fn structure_without_close_is_an_error() {
    assert_eq!(FoamStructure::parse("x { a 1;"), Err(ParseError { position: 1 }));
    assert!(FoamValue::parse("no semicolon").is_err());
}

#[test]
fn writer_primitives() {
    assert_eq!(write_single_data(&strings(&["a", "b"])), "2\n(\na\nb\n)\n");
    assert_eq!(write_vector_content(&strings(&["1", "2", "3"])), "1 2 3");
    assert_eq!(
        write_multi_data(&vec![strings(&["1", "2", "3"]), strings(&["4", "5"])]),
        "2\n(\n3(1 2 3)\n2(4 5)\n)\n"
    );
    assert_eq!(
        write_fixed_witdh_data(&vec![strings(&["1", "2", "3"]), strings(&["4", "5", "6"])]),
        "2\n(\n(1 2 3)\n(4 5 6)\n)\n"
    );
    assert_eq!(bool_as_num(true), 1);
    assert_eq!(bool_as_num(false), 0);
    assert_eq!(usize_to_string(1230), "1230");
    assert_eq!(usize_val("12ab"), Ok((s("ab"), 12)));
}

#[test]
fn label_files_round_trip() {
    let owner = OwnerData(vec![0, 1, 1, 2]);
    assert_eq!(owner.write(), "4\n(\n0\n1\n1\n2\n)\n");
    let (back, _) = OwnerData::parse_at(&chars_of(&owner.write()), 0).unwrap();
    assert_eq!(back, owner);
    let n = NeighbourData(vec![3]);
    assert_eq!(NeighbourData::parse_at(&chars_of(&n.write()), 0).unwrap().0, n);
    let (set, _) = SetData::parse_at(&chars_of("2(7 8)"), 0).unwrap();
    assert_eq!(set.labels, vec![7, 8]);
    assert_eq!(set.n, 2);
    assert_eq!(set.name, "uninitialized");
    let faces = FaceData(vec![vec![1, 2, 3], vec![4, 5, 6, 7]]);
    assert_eq!(faces.write(), "2\n(\n3(1 2 3)\n4(4 5 6 7)\n)\n");
    assert_eq!(FaceData::parse_at(&chars_of(&faces.write()), 0).unwrap().0, faces);
}

#[test]
fn boundary_count_checked() {
    let text = "2\n(\ndown { type patch; nFaces 0; startFace 10; }\nright { type patch; }\n)";
    let (b, _) = BoundaryData::parse_at(&chars_of(text), 0).unwrap();
    assert_eq!(b.0.len(), 2);
    let (b2, _) = BoundaryData::parse_at(&chars_of(&b.write()), 0).unwrap();
    assert_eq!(b2, b);
    let wrong = "3\n(\ndown { type patch; }\n)";
    assert!(BoundaryData::parse_at(&chars_of(wrong), 0).is_none());
}

#[test]
fn zones_parse_and_write() {
    let text = "2\n(\na\n{\n    type faceZone;\nfaceLabels      List<label>  \n2\n(\n4\n5\n)\n;\nflipMap         List<bool> 2{0};\n}\n\nb { type faceZone; faceLabels List<label> 1(9); flipMap List<bool> 1{1}; }\n)";
    let (zones, _): (ZoneData<FaceZone>, usize) = ZoneData::parse_at(&chars_of(text), 0).unwrap();
    assert_eq!(zones.n, 2);
    assert_eq!(zones.zones[0].faces, vec![4, 5]);
    assert!(!zones.zones[0].flipmap);
    assert!(zones.zones[1].flipmap);
    let (again, _): (ZoneData<FaceZone>, usize) = ZoneData::parse_at(&chars_of(&zones.write()), 0).unwrap();
    assert_eq!(again, zones);
    let cz = CellZone { name: s("c"), n: 2, cells: vec![1, 2] };
    assert_eq!(CellZone::parse_at(&chars_of(&cz.write()), 0).unwrap().0, cz);
    let pz = PointZone { name: s("p"), n: 1, points: vec![3] };
    assert_eq!(PointZone::parse_at(&chars_of(&pz.write()), 0).unwrap().0, pz);
}

#[test]
fn dimensions_round_trip() {
    let d = Dimensions::new([0, 1, -1, 0, 0, 0, 0]);
    assert_eq!(d.write(), "dimensions [0 1 -1 0 0 0 0];");
    assert_eq!(Dimensions::parse_at(&chars_of(&d.write()), 0).unwrap().0, d);
    assert!(Dimensions::parse_at(&chars_of("dimensions [0 1 2];"), 0).is_none());
}

const FILE: &str = "FoamFile\n{\n    format ascii;\n    class labelList;\n    location \"constant/polyMesh\";\n    object owner;\n}\n// * * //\n3\n(\n0\n1\n2\n)\n// end\n";

#[test]
fn whole_file_lenient_and_strict() {
    let (c, rest): (FileContent<OwnerData>, String) = FileContent::parse(FILE).unwrap();
    assert_eq!(rest, "");
    assert_eq!(c.data, OwnerData(vec![0, 1, 2]));
    assert_eq!(c.destination(), "constant/polyMesh/owner");
    let with_rest = format!("{}extra", FILE);
    let (_, rest): (FileContent<OwnerData>, String) = FileContent::parse(&with_rest).unwrap();
    assert_eq!(rest, "extra");
    let strict: Result<FileContent<OwnerData>, ContentError> = FileContent::parse_strict(&with_rest);
    assert_eq!(strict, Err(ContentError::Trailing(with_rest.len() - 5)));
    let ok: FileContent<OwnerData> = FileContent::parse_strict(FILE).unwrap();
    let written = ok.write();
    let back: FileContent<OwnerData> = FileContent::parse_strict(&written).unwrap();
    assert_eq!(back, ok);
}

#[test]
fn whole_file_errors() {
    let binary = FILE.replace("ascii", "binary");
    let r: Result<(FileContent<OwnerData>, String), ContentError> = FileContent::parse(&binary);
    assert_eq!(r.err(), Some(ContentError::UnsupportedFormat));
    let other = FILE.replace("ascii", "text");
    let r: Result<(FileContent<OwnerData>, String), ContentError> = FileContent::parse(&other);
    assert_eq!(r.err(), Some(ContentError::Grammar(0)));
    let broken = FILE.replace("3\n(", "4\n(");
    let r: Result<(FileContent<OwnerData>, String), ContentError> = FileContent::parse(&broken);
    assert!(matches!(r.err(), Some(ContentError::Grammar(_))));
}

#[test]
fn header_path() {
    let (_, h) = FoamFile::parse(FILE).unwrap();
    assert_eq!(h.relative_file_path(), Some(s("constant/polyMesh/owner")));
    assert!(!h.is_binary());
    let c = FileContent { location: None, meta: h, data: OwnerData(vec![]) };
    assert_eq!(c.destination(), "constant/polyMesh/owner");
    let (_, h) = FoamFile::parse("FoamFile { format ascii; class c; location 1; object o; }").unwrap();
    assert_eq!(h.relative_file_path(), None);
    let c = FileContent { location: None, meta: h, data: OwnerData(vec![]) };
    assert_eq!(c.destination(), "constant/polyMesh/owner");
    let (_, h) = FoamFile::parse("FoamFile { format ascii; class c; location l; object o; }").unwrap();
    let c = FileContent { location: Some(s("x/y")), meta: h, data: OwnerData(vec![]) };
    assert_eq!(c.destination(), "x/y");
}

#[test]
fn clone_is_deep() {
    let (_, st) = FoamValue::parse_map("a { b 1; c List<word> 1(x); } d uniform (1 2 3);");
    let copy = st.clone();
    assert_eq!(copy, st);
    let mut changed = copy.clone();
    changed.insert(s("d"), FoamValue::Integer(7));
    assert_ne!(changed, st);
    assert_eq!(copy, st);
}

#[test]
fn written_structure_reads_back() {
    let input = "patches { down { type patch; nFaces 0; startFace 10; inGroups List<word> 2(a b); } right { type wall; value uniform (0 0 1); weight 0.5; } }";
    let (_, st) = FoamStructure::parse(input).unwrap();
    let text = st.write();
    let (rest, again) = FoamStructure::parse(&text).unwrap();
    assert_eq!(rest, "\n");
    assert_eq!(again, st);
    let v = FoamValue::Structure(st);
    let (_, back) = FoamValue::parse(&v.write()).unwrap();
    match (back, v) {
        (FoamValue::Structure(b), FoamValue::Structure(o)) => {
            assert_eq!(b.name, "");
            assert_eq!(b.content, o.content);
        }
        _ => panic!("not a structure"),
    }
}

#[test]
fn plus_sign_integer() {
    assert_eq!(value("+5;"), FoamValue::Integer(5));
    assert_eq!(value(" +12 ;"), FoamValue::Integer(12));
    assert_eq!(value("+;"), FoamValue::String(s("+")));
    assert_eq!(value("+-5;"), FoamValue::String(s("+-5")));
    assert_eq!(value("inf;"), FoamValue::String(s("inf")));
}

#[test]
fn zone_count_mismatch_fails() {
    let text = "3\n(\nz\n{\n    type cellZone;\ncellLabels      List<label> 1(0);\n}\n)";
    let r: Option<(ZoneData<CellZone>, usize)> = ZoneData::parse_at(&chars_of(text), 0);
    assert!(r.is_none());
    let file = format!("FoamFile {{ format ascii; class regIOobject; location \"constant/polyMesh\"; object cellZones; }}\n{}", text);
    let r: Result<(FileContent<ZoneData<CellZone>>, String), ContentError> = FileContent::parse(&file);
    assert!(matches!(r.err(), Some(ContentError::Grammar(_))));
}

#[test]
fn zones_with_same_name_merge() {
    let text = "3\n(\na { type cellZone; cellLabels List<label> 1(0); }\nb { type cellZone; cellLabels List<label> 1(1); }\na { type cellZone; cellLabels List<label> 2(2 3); }\n)";
    let (d, _): (ZoneData<CellZone>, usize) = ZoneData::parse_at(&chars_of(text), 0).unwrap();
    assert_eq!(d.n, 2);
    assert_eq!(d.zones.len(), 2);
    assert_eq!(d.zones[0].name, "a");
    assert_eq!(d.zones[0].cells, vec![2, 3]);
    assert_eq!(d.zones[1].name, "b");
}

#[test]
fn strict_zone_file_refuses_leftover() {
    let body = "1\n(\nz\n{\n    type pointZone;\npointLabels      List<label> 2(4 5);\n}\n)\n";
    let file = format!("FoamFile {{ format ascii; class regIOobject; location \"constant/polyMesh\"; object pointZones; }}\n{}", body);
    let ok: FileContent<ZoneData<PointZone>> = FileContent::parse_strict(&file).unwrap();
    assert_eq!(ok.data.zones[0].points, vec![4, 5]);
    let extra = format!("{}junk", file);
    let r: Result<FileContent<ZoneData<PointZone>>, ContentError> = FileContent::parse_strict(&extra);
    assert_eq!(r, Err(ContentError::Trailing(file.len())));
}

#[test]
fn words_beyond_ascii() {
    let (_, st) = FoamValue::parse_map("température 5; größe wert;");
    assert_eq!(
        st.content,
        vec![(s("température"), FoamValue::Integer(5)), (s("größe"), FoamValue::String(s("wert")))]
    );
}

#[test]
fn texts_with_spaces_read_back() {
    let note = FoamValue::String(s("\"nPoints:215  nCells:592\""));
    assert_eq!(FoamValue::parse(&note.write()).unwrap().1, note);
    let phrase = FoamValue::String(s("constant (1 0 0)"));
    assert_eq!(FoamValue::parse(&phrase.write()).unwrap().1, phrase);
}

use polymesh_rw::field::FoamField;
use polymesh_rw::mesh::{FaceData, PointData};
use polymesh_rw::result::{Dimensions, ResultData};
use polymesh_rw::text::{chars_of, discard_garbage, string_val};
use polymesh_rw::value::{FoamStructure, FoamValue};

fn s(t: &str) -> String {
    t.to_string()
}

fn numbers(v: &[String]) -> Vec<f64> {
    v.iter().map(|x| x.parse::<f64>().unwrap()).collect()
}

#[test]
fn base_test_ws() {
    let input = "  hello  ";
    let rest = discard_garbage(input);
    let (rest, word) = string_val(&rest).unwrap();
    let rest = discard_garbage(&rest);
    assert_eq!(("".to_string(), "hello".to_string()), (rest, word));
}

#[test]
fn parser_base_test_ws() {
    let input = "  hello  ";
    let rest = discard_garbage(input);
    let (rest, word) = string_val(&rest).unwrap();
    let rest = discard_garbage(&rest);
    assert_eq!(("".to_string(), "hello".to_string()), (rest, word));
}

#[test]
fn base_test_word() {
    let input = "   hello   a";
    let (rest, word) = string_val(&discard_garbage(input)).unwrap();
    let rest = discard_garbage(&rest);
    assert_eq!(("a".to_string(), "hello".to_string()), (rest, word));
}

#[test]
fn parser_base_test_word() {
    let input = "   hello   a";
    let (rest, word) = string_val(&discard_garbage(input)).unwrap();
    let rest = discard_garbage(&rest);
    assert_eq!(("a".to_string(), "hello".to_string()), (rest, word));
}

const LARGE: &str = "
/*--------------------------------*- C++ -*----------------------------------*\\
  =========                 |
  \\\\      /  F ield         | OpenFOAM: The Open Source CFD Toolbox
   \\\\    /   O peration     | Website:  https://openfoam.org
    \\\\  /    A nd           | Version:  10
     \\\\/     M anipulation  |
\\*---------------------------------------------------------------------------*/
FoamFile
{
    format      ascii;
    class       vectorField;
    location    constant/polyMesh;
    object      points;
}
// * * * * * * * * * * * * * * * * * * * * * * * * * * * * * * * * * * * * * //


215";

const LARGE_PART2: &str = "
{
    format      ascii;
    class       vectorField;
    location    constant/polyMesh;
    object      points;
}
// * * * * * * * * * * * * * * * * * * * * * * * * * * * * * * * * * * * * * //


215";

#[test]
fn base_test_large() {
    let i = discard_garbage(LARGE);
    let actual = string_val(&i);
    assert_eq!(Ok((LARGE_PART2.to_string(), "FoamFile".to_string())), actual);
}

#[test]
fn parser_base_test_large() {
    let i = discard_garbage(LARGE);
    let actual = string_val(&i);
    assert_eq!(Ok((LARGE_PART2.to_string(), "FoamFile".to_string())), actual);
}

#[test]
fn foam_structure_test_boundary_parsing() {
    let input = "
        down
        {
            type            symmetryPlane;
            inGroups        List<word> 1(symmetryPlane);
            nFaces          60;
            startFace       3890;
        }";
    let expected = FoamStructure {
        name: s("down"),
        content: vec![
            (s("type"), FoamValue::String(s("symmetryPlane"))),
            (s("inGroups"), FoamValue::List(vec![s("symmetryPlane")])),
            (s("nFaces"), FoamValue::Integer(60)),
            (s("startFace"), FoamValue::Integer(3890)),
        ],
    };
    let result = FoamStructure::parse(input).expect("Failed to parse structure.");
    assert_eq!(result.1, expected);
}

#[test]
fn foam_structure_test_recursive_parsing() {
    let input = "
        boundaryField
        {
            down
            {
                type            symmetryPlane;
            }
            
            right
            {
                type            fixedValue;
            }
        }";
    let inner_down = FoamStructure {
        name: s("down"),
        content: vec![(s("type"), FoamValue::String(s("symmetryPlane")))],
    };
    let inner_right = FoamStructure {
        name: s("right"),
        content: vec![(s("type"), FoamValue::String(s("fixedValue")))],
    };
    let expected = FoamStructure {
        name: s("boundaryField"),
        content: vec![
            (s("down"), FoamValue::Structure(inner_down)),
            (s("right"), FoamValue::Structure(inner_right)),
        ],
    };
    let result = FoamStructure::parse(input).expect("Failed to parse structure.");
    assert_eq!(result.1, expected);
}

#[test]
fn foam_structure_test_recursive_with_string() {
    let input = "
boundaryField
{
    down
    {
        type            symmetryPlane;
    }

    right
    {
        type            zeroGradient;
    }

    up
    {
        type            symmetryPlane;
    }

    left
    {
        type            uniformFixedValue;
        uniformValue    constant (1 0 0);
    }

    cylinder
    {
        type            symmetry;
    }

    defaultFaces
    {
        type            empty;
    }
}";
    let result = FoamStructure::parse(input).expect("Failed to parse structure.");
    println!("{:?}", result.1);
}

fn header_inner() -> Vec<(String, FoamValue)> {
    vec![
        (s("format"), FoamValue::String(s("ascii"))),
        (s("class"), FoamValue::String(s("vectorField"))),
        (s("location"), FoamValue::String(s(r#""constant/polyMesh""#))),
        (s("object"), FoamValue::String(s("points"))),
    ]
}

const FOAMFILE: &str = r#"
FoamFile
{
    format      ascii;
    class       vectorField;
    location    "constant/polyMesh";
    object      points;
}"#;

const HEADER: &str = r#"
/*--------------------------------*- C++ -*----------------------------------*\
  =========                 |
  \\      /  F ield         | OpenFOAM: The Open Source CFD Toolbox
   \\    /   O peration     | Website:  https://openfoam.org
    \\  /    A nd           | Version:  10
     \\/     M anipulation  |
\*---------------------------------------------------------------------------*/
FoamFile
{
    version     0.0;
    format      ascii;
    class       polyBoundaryMesh;
    note        "nPoints:215  nCells:592  nFaces:1388  nInternalFaces:980";
    location    "constant/polyMesh";
    object      boundary;
}"#;

fn header_full() -> Vec<(String, FoamValue)> {
    vec![
        (s("version"), FoamValue::Float(s("0.0"))),
        (s("format"), FoamValue::String(s("ascii"))),
        (s("class"), FoamValue::String(s("polyBoundaryMesh"))),
        (
            s("note"),
            FoamValue::String(s(r#""nPoints:215  nCells:592  nFaces:1388  nInternalFaces:980""#)),
        ),
        (s("location"), FoamValue::String(s(r#""constant/polyMesh""#))),
        (s("object"), FoamValue::String(s("boundary"))),
    ]
}

#[test]
fn mod_test_parse_foamfile() {
    let expected_inner = FoamStructure { name: s("FoamFile"), content: header_inner() };
    let expected_data = FoamStructure {
        name: s(""),
        content: vec![(s("FoamFile"), FoamValue::Structure(expected_inner))],
    };
    let actual = FoamValue::parse_map(FOAMFILE);
    assert_eq!((s(""), expected_data), actual);
}

#[test]
fn mod_test_parse_header() {
    let expected_inner = FoamStructure { name: s("FoamFile"), content: header_full() };
    let expected = FoamStructure {
        name: s(""),
        content: vec![(s("FoamFile"), FoamValue::Structure(expected_inner))],
    };
    let (_, actual) = FoamValue::parse_map(HEADER);
    assert_eq!(expected, actual);
}

#[test]
fn foam_file_test_parse_foamfile() {
    let expected_data = FoamStructure { name: s("FoamFile"), content: header_inner() };
    let expected = Ok((s(""), expected_data));
    let actual = FoamStructure::parse(FOAMFILE);
    assert_eq!(expected, actual);
}

#[test]
fn foam_file_test_parse_header() {
    let expected = FoamStructure { name: s("FoamFile"), content: header_full() };
    let (_, actual) = FoamStructure::parse(HEADER).unwrap();
    assert_eq!(expected, actual);
}

#[test]
fn test_parse_faces() {
    let input = "
4
(
3(42 92 84)
3(113 84 92)
3(42 84 113)
3(42 113 92)
)";
    let expected_value = FaceData(vec![
        vec![42, 92, 84],
        vec![113, 84, 92],
        vec![42, 84, 113],
        vec![42, 113, 92],
    ]);
    let (actual_value, _) = FaceData::parse_at(&chars_of(input), 0).unwrap();
    assert_eq!(expected_value, actual_value);
}

#[test]
fn test_parse_points() {
    let input = "
4
(
(0 0 1)
(0 0 0)
(0 1 1)
(0 1 0)
)";
    let expected_value: Vec<[f64; 3]> = vec![
        [0.0, 0.0, 1.0],
        [0.0, 0.0, 0.0],
        [0.0, 1.0, 1.0],
        [0.0, 1.0, 0.0],
    ];
    let (actual_value, _): (PointData, usize) = PointData::parse_at(&chars_of(input), 0).unwrap();
    let actual: Vec<Vec<f64>> = actual_value.0.iter().map(|p| numbers(p)).collect();
    let expected: Vec<Vec<f64>> = expected_value.iter().map(|p| p.to_vec()).collect();
    assert_eq!(expected, actual);
}

#[test]
fn test_parse_scalar() {
    let input = "
dimensions      [0 2 -2 0 0 0 0];
internalField   nonuniform List<scalar> 
4
(
685.183
685.183
685.184
685.184
)
;
";
    let (actual_value, _) = ResultData::parse_at(&chars_of(input), 0).unwrap();
    assert_eq!(actual_value.n, 4);
    assert_eq!(actual_value.dimensions, Dimensions([0, 2, -2, 0, 0, 0, 0]));
    assert_eq!(actual_value.boundary_field, None);
    match &actual_value.result {
        FoamField::Scalar(v) => assert_eq!(numbers(v), vec![685.183, 685.183, 685.184, 685.184]),
        other => panic!("not a scalar field: {:?}", other),
    }
}

#[test]
fn test_parse_vector() {
    let input = "
dimensions      [0 1 -1 0 0 0 0];
internalField   nonuniform List<vector> 
4
(
(-8.52809e-05 0.00019428 0.00777701)
(-8.36566e-05 0.00019361 0.00802691)
(-8.15522e-05 0.000192606 0.00828979)
(-7.90789e-05 0.000191318 0.00856647)
)
;";
    let (actual_value, _) = ResultData::parse_at(&chars_of(input), 0).unwrap();
    assert_eq!(actual_value.n, 4);
    assert_eq!(actual_value.dimensions, Dimensions([0, 1, -1, 0, 0, 0, 0]));
    assert_eq!(actual_value.boundary_field, None);
    let expected = vec![
        vec![-8.52809e-05, 0.00019428, 0.00777701],
        vec![-8.36566e-05, 0.00019361, 0.00802691],
        vec![-8.15522e-05, 0.000192606, 0.00828979],
        vec![-7.90789e-05, 0.000191318, 0.00856647],
    ];
    match &actual_value.result {
        FoamField::Vector(v) => {
            let actual: Vec<Vec<f64>> = v.iter().map(|p| numbers(p)).collect();
            assert_eq!(actual, expected);
        }
        other => panic!("not a vector field: {:?}", other),
    }
}

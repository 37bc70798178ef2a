use zoa::shapes::mesh::{
    file_kind, mesh_format, obj_faces, parse_stl_binary, parse_stl_text, read_stl, FileKind, ObjModel,
    StlFacets,
};
use zoa::{Error, IoFailure};

fn binary_stl(header: &[u8], count: u32, records: &[[f32; 12]]) -> Vec<u8> {
    let mut data = vec![b' '; 80];
    data[..header.len()].copy_from_slice(header);
    data.extend_from_slice(&count.to_le_bytes());
    for r in records {
        for f in r {
            data.extend_from_slice(&f.to_le_bytes());
        }
        data.extend_from_slice(&[0u8; 2]);
    }
    data
}

fn text_of(words: &[Vec<char>]) -> Vec<String> {
    words.iter().map(|w| w.iter().collect()).collect()
}

#[test]
fn test_binary_stl_with_solid_header() {
    // Binary STL whose header starts with "solid", as many exporters write
    let floats: [f32; 12] = [0.0, 0.0, 1.0, 0.0, 0.0, 0.0, 1.0, 0.0, 0.0, 0.0, 1.0, 0.0];
    let data = binary_stl(b"solid model", 1, &[floats]);
    match read_stl(&data) {
        Ok(StlFacets::Binary(v)) => {
            assert_eq!(v.len(), 1);
            assert_eq!(f32::from_bits(v[0][2]), 1.0);
            assert_eq!(f32::from_bits(v[0][6]), 1.0);
            assert_eq!(f32::from_bits(v[0][10]), 1.0);
        }
        _ => panic!("binary STL should parse"),
    }
}

#[test]
fn binary_stops_at_the_data() {
    let r = [1.5f32; 12];
    // Two records announced, one present
    let data = binary_stl(b"", 2, &[r]);
    let v = parse_stl_binary(&data).unwrap();
    assert_eq!(v.len(), 1);
    assert_eq!(v[0], [1.5f32.to_bits(); 12]);
    // A short file is an early end
    assert!(matches!(parse_stl_binary(&data[..83]), Err(Error::Io(IoFailure::UnexpectedEof))));
    assert!(matches!(read_stl(&data[..79]), Err(Error::Io(IoFailure::UnexpectedEof))));
    assert!(matches!(read_stl(&data[..82]), Err(Error::Io(IoFailure::UnexpectedEof))));
    // No record: nothing to draw
    match read_stl(&binary_stl(b"", 0, &[])) {
        Err(Error::InvalidData(m)) => assert_eq!(m, "no triangles found in STL file"),
        _ => panic!("expected InvalidData"),
    }
}

const CUBE_FACE: &str = "solid cube\n  facet normal 0 0 1\n    outer loop\n      vertex 0 0 0\n      vertex 1 0 0\r\n      vertex 1 1 0\n    endloop\n  endfacet\n  facet normal 0 0 -1\n    outer loop\n vertex 0 0 0\nvertex 1 1 0\n\tvertex 0 1 0\n endloop\n endfacet\nendsolid cube\n";

#[test]
fn ascii_stl_is_read_by_lines() {
    match read_stl(CUBE_FACE.as_bytes()) {
        Ok(StlFacets::Ascii(v)) => {
            assert_eq!(v.len(), 2);
            assert_eq!(text_of(v[0].normal.as_ref().unwrap()), ["0", "0", "1"]);
            assert_eq!(text_of(&v[0].corners[1]), ["1", "0", "0"]);
            assert_eq!(text_of(&v[0].corners[2]), ["1", "1", "0"]);
            assert_eq!(text_of(v[1].normal.as_ref().unwrap()), ["0", "0", "-1"]);
            assert_eq!(text_of(&v[1].corners[2]), ["0", "1", "0"]);
        }
        _ => panic!("ASCII STL should parse"),
    }
}

#[test]
fn ascii_vertices_before_any_normal() {
    let text: Vec<char> = "vertex 1 2 3 extra\nvertex 4 5\nvertex 4 5 6\nfacet 1 2 3 4\nvertex 7 8 9\n".chars().collect();
    let v = parse_stl_text(&text);
    assert_eq!(v.len(), 1);
    assert!(v[0].normal.is_none());
    assert_eq!(text_of(&v[0].corners[0]), ["1", "2", "3"]);
    assert_eq!(text_of(&v[0].corners[1]), ["4", "5", "6"]);
    assert_eq!(text_of(&v[0].corners[2]), ["7", "8", "9"]);
}

#[test]
fn ascii_stl_errors() {
    let mut bad = "solid x\n".as_bytes().to_vec();
    bad.resize(100, b' ');
    bad.push(0xFF);
    assert!(matches!(read_stl(&bad), Err(Error::Io(IoFailure::InvalidUtf8))));
    let mut empty = "solid nothing here".as_bytes().to_vec();
    empty.resize(90, b'\n');
    match read_stl(&empty) {
        Err(Error::InvalidData(m)) => assert_eq!(m, "no triangles found in STL file"),
        _ => panic!("expected InvalidData"),
    }
}

#[test]
fn header_may_start_with_white_space() {
    let mut text = "\u{a0}\t solid a\nvertex 1 2 3\nvertex 1 2 3\nvertex 1 2 3\n".as_bytes().to_vec();
    text.resize(120, b' ');
    assert!(matches!(read_stl(&text), Ok(StlFacets::Ascii(_))));
    // Without "solid" the same bytes are read as binary
    let mut other = "\u{a0}\t solix a\n".as_bytes().to_vec();
    other.resize(120, b' ');
    assert!(matches!(read_stl(&other), Ok(StlFacets::Binary(_)) | Err(Error::InvalidData(_))));
}

#[test]
fn obj_indices_group_into_triangles() {
    let models = vec![
        ObjModel { indices: vec![0, 1, 2, 2, 3, 0, 1], position_len: 12, normal_len: 9 },
        ObjModel { indices: vec![0, 1, 2], position_len: 9, normal_len: 0 },
    ];
    let faces = obj_faces(&models).unwrap();
    assert_eq!(faces.len(), 3);
    assert_eq!((faces[0].model, faces[0].corners, faces[0].has_normals), (0, [0, 1, 2], true));
    // Vertex 3 has no normal among 9 coordinates
    assert_eq!((faces[1].model, faces[1].corners, faces[1].has_normals), (0, [2, 3, 0], false));
    assert_eq!((faces[2].model, faces[2].corners, faces[2].has_normals), (1, [0, 1, 2], false));
    let none = vec![ObjModel { indices: vec![0, 1], position_len: 6, normal_len: 0 }];
    match obj_faces(&none) {
        Err(Error::InvalidData(m)) => assert_eq!(m, "no triangles found in OBJ file"),
        _ => panic!("expected InvalidData"),
    }
}

#[test]
fn extensions_name_formats_in_any_case() {
    assert_eq!(file_kind("OBJ"), Some(FileKind::Obj));
    assert_eq!(file_kind("Stl"), Some(FileKind::Stl));
    assert_eq!(file_kind("gif"), Some(FileKind::Gif));
    assert_eq!(file_kind("png"), None);
    assert!(matches!(mesh_format("sTl"), Ok(FileKind::Stl)));
    match mesh_format("GIF") {
        Err(Error::UnsupportedFormat(e)) => assert_eq!(e, "gif"),
        _ => panic!("expected UnsupportedFormat"),
    }
}

use matrix2d::matrix::Matrix;
use matrix2d::policy::DefaultValue;
use serde_json::Value;

fn encode<C: serde::Serialize>(content: &Vec<Vec<C>>, x_dim: usize, y_dim: usize) -> String {
    let mut fields = serde_json::Map::new();
    fields.insert(String::from("content"), serde_json::to_value(content).unwrap());
    fields.insert(String::from("x_dim"), serde_json::to_value(x_dim).unwrap());
    fields.insert(String::from("y_dim"), serde_json::to_value(y_dim).unwrap());
    serde_json::to_string(&Value::Object(fields)).unwrap()
}

fn decode<C: serde::de::DeserializeOwned>(text: &str) -> (Vec<Vec<C>>, usize, usize) {
    let fields: Value = serde_json::from_str(text).unwrap();
    let content = serde_json::from_value::<Vec<Vec<C>>>(fields["content"].clone()).unwrap();
    let x_dim = serde_json::from_value::<usize>(fields["x_dim"].clone()).unwrap();
    let y_dim = serde_json::from_value::<usize>(fields["y_dim"].clone()).unwrap();
    (content, x_dim, y_dim)
}

#[test]
fn test_serializer() {
    let matrix = Matrix::<usize>::new(8_usize, 10_usize);
    let content = encode(matrix.content(), matrix.x_dim(), matrix.y_dim());
    let (cells, x_dim, y_dim) = decode::<Option<usize>>(&content);
    let _deserialized_matrix = Matrix::<usize>::from_parts(cells, x_dim, y_dim).unwrap();
    assert_eq!(matrix.x_dim(), _deserialized_matrix.x_dim());
    assert_eq!(matrix.y_dim(), _deserialized_matrix.y_dim());
    assert_eq!(matrix.content(), _deserialized_matrix.content());
}

#[test]
fn populated_matrix_survives_serialization() {
    let mut matrix = Matrix::<usize>::new(3, 2);
    matrix.add(0, 0, Some(4)).unwrap();
    matrix.add(2, 1, Some(5)).unwrap();
    let text = encode(matrix.content(), matrix.x_dim(), matrix.y_dim());
    assert_eq!(text, r#"{"content":[[4,null,null],[null,null,5]],"x_dim":3,"y_dim":2}"#);
    let (cells, x_dim, y_dim) = decode::<Option<usize>>(&text);
    let back = Matrix::<usize>::from_parts(cells, x_dim, y_dim).unwrap();
    assert_eq!(back.x_dim(), matrix.x_dim());
    assert_eq!(back.y_dim(), matrix.y_dim());
    assert_eq!(back.content(), matrix.content());
}

#[test]
fn default_valued_matrix_survives_serialization() {
    let mut matrix = Matrix::<i64, DefaultValue>::default(2, 2);
    matrix.add(1, 0, -3).unwrap();
    let text = encode(matrix.content(), matrix.x_dim(), matrix.y_dim());
    assert_eq!(text, r#"{"content":[[0,-3],[0,0]],"x_dim":2,"y_dim":2}"#);
    let (cells, x_dim, y_dim) = decode::<i64>(&text);
    let back = Matrix::<i64, DefaultValue>::from_parts(cells, x_dim, y_dim).unwrap();
    assert_eq!(back.content(), matrix.content());
}

#[test]
fn inconsistent_document_makes_no_matrix() {
    let text = r#"{"content":[[1,null],[null]],"x_dim":2,"y_dim":2}"#;
    let (cells, x_dim, y_dim) = decode::<Option<usize>>(text);
    assert!(Matrix::<usize>::from_parts(cells, x_dim, y_dim).is_none());
}

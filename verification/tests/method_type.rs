use rustserv::error::ParseError;
use rustserv::method_type::MethodType;

#[test]
fn get_as_str() {
    assert_eq!(MethodType::Get.as_str(), "GET");
}

#[test]
fn post_as_str() {
    assert_eq!(MethodType::Post.as_str(), "POST");
}

#[test]
fn delete_as_str() {
    assert_eq!(MethodType::Delete.as_str(), "DELETE");
}

#[test]
fn get_from_str() {
    let result = MethodType::from_str("GET");
    assert!(result.is_ok());
    assert_eq!(result.unwrap(), MethodType::Get);
}

#[test]
fn post_from_str() {
    let result = MethodType::from_str("POST");
    assert!(result.is_ok());
    assert_eq!(result.unwrap(), MethodType::Post);
}

#[test]
fn delete_from_str() {
    let result = MethodType::from_str("DELETE");
    assert!(result.is_ok());
    assert_eq!(result.unwrap(), MethodType::Delete);
}

#[test]
fn invalid_from_str() {
    let result = MethodType::from_str("INVALID");
    assert!(result.is_err());
    assert_eq!(result.unwrap_err().message(), "Unkown HTTP method");
}

#[test]
fn every_method_reads_back_from_its_text() {
    for method in [MethodType::Get, MethodType::Post, MethodType::Delete] {
        assert_eq!(MethodType::from_str(method.as_str()), Ok(method));
    }
}

#[test]
fn lower_case_empty_and_unknown_methods_are_rejected() {
    for token in ["get", "", "PATCH", "GET ", " GET", "GETS", "Post", "DELET"] {
        assert_eq!(MethodType::from_str(token), Err(ParseError::UnknownMethod), "{:?}", token);
    }
}

use nacos_sync::mask::filter_config;
use nacos_sync::yaml::parse_document;

#[test]
fn config_test_filter_config_simple() {
    let config_content = r"
            name:
              first: John
              last: Doe
            ";
    let ignore_content = r"
            name:
              last:
            ";
    let config = parse_document(config_content).unwrap();
    let ignore = parse_document(ignore_content).unwrap();
    let result = filter_config(&config, &ignore);
    assert_eq!(result.len(), 1);
    assert_eq!(result.get("name").unwrap().as_mapping().unwrap().len(), 1);
    assert_eq!(result.get("name").unwrap().as_mapping().unwrap().get("first").unwrap().as_str().unwrap(), "John");
}

#[test]
fn config_test_filter_config_all_ignored() {
    let config_content = r"
            name:
              last: Doe
            ";
    let ignore_content = r"
            name:
              last:
            ";
    let config = parse_document(config_content).unwrap();
    let ignore = parse_document(ignore_content).unwrap();
    let result = filter_config(&config, &ignore);
    assert_eq!(result.len(), 0);
}

#[test]
fn config_test_filter_config_simple_nested() {
    let config_content = r"
           name:
              first: John
              last: Doe
           age:
              max: 30
              min: 18
            ";
    let ignore_content = r"
           name:
              last:
           age:
              max:
            ";
    let config = parse_document(config_content).unwrap();
    let ignore = parse_document(ignore_content).unwrap();
    let result = filter_config(&config, &ignore);
    println!("Result: {:#?}", &result);
    assert_eq!(result.len(), 2);
    assert_eq!(result.get("name").unwrap().as_mapping().unwrap().len(), 1);
    assert_eq!(result.get("name").unwrap().as_mapping().unwrap().get("first").unwrap().as_str().unwrap(), "John");
    assert_eq!(result.get("age").unwrap().as_mapping().unwrap().len(), 1);
    assert_eq!(result.get("age").unwrap().as_mapping().unwrap().get("min").unwrap().as_i64().unwrap(), 18);
}

#[test]
fn config_test_filter_config_seq() {
    let config_content = r"
           addr:
              - 192.168.1.1
              - 192.168.1.2
              - 192.168.1.3
           port: 8080
            ";
    let ignore_content = r"
           addr:
            ";
    let config = parse_document(config_content).unwrap();
    let ignore = parse_document(ignore_content).unwrap();
    let result = filter_config(&config, &ignore);
    println!("Result: {:#?}", &result);
    assert_eq!(result.len(), 1);
    assert_eq!(result.get("port").unwrap().as_i64().unwrap(), 8080);
}

#[test]
fn main_test_filter_config_simple() {
    let config_content = r"
            name:
              first: John
              last: Doe
            ";
    let ignore_content = r"
            name:
              last:
            ";
    let config = parse_document(config_content).unwrap();
    let ignore = parse_document(ignore_content).unwrap();
    let result = filter_config(&config, &ignore);
    assert_eq!(result.len(), 1);
    assert_eq!(result.get("name").unwrap().as_mapping().unwrap().len(), 1);
    assert_eq!(result.get("name").unwrap().as_mapping().unwrap().get("first").unwrap().as_str().unwrap(), "John");
}

#[test]
fn main_test_filter_config_all_ignored() {
    let config_content = r"
            name:
              last: Doe
            ";
    let ignore_content = r"
            name:
              last:
            ";
    let config = parse_document(config_content).unwrap();
    let ignore = parse_document(ignore_content).unwrap();
    let result = filter_config(&config, &ignore);
    assert_eq!(result.len(), 0);
}

#[test]
fn main_test_filter_config_simple_nested() {
    let config_content = r"
           name:
              first: John
              last: Doe
           age:
              max: 30
              min: 18
            ";
    let ignore_content = r"
           name:
              last:
           age:
              max:
            ";
    let config = parse_document(config_content).unwrap();
    let ignore = parse_document(ignore_content).unwrap();
    let result = filter_config(&config, &ignore);
    println!("Result: {:#?}", &result);
    assert_eq!(result.len(), 2);
    assert_eq!(result.get("name").unwrap().as_mapping().unwrap().len(), 1);
    assert_eq!(result.get("name").unwrap().as_mapping().unwrap().get("first").unwrap().as_str().unwrap(), "John");
    assert_eq!(result.get("age").unwrap().as_mapping().unwrap().len(), 1);
    assert_eq!(result.get("age").unwrap().as_mapping().unwrap().get("min").unwrap().as_i64().unwrap(), 18);
}

#[test]
fn main_test_filter_config_seq() {
    let config_content = r"
           addr:
              - 192.168.1.1
              - 192.168.1.2
              - 192.168.1.3
           port: 8080
            ";
    let ignore_content = r"
           addr:
            ";
    let config = parse_document(config_content).unwrap();
    let ignore = parse_document(ignore_content).unwrap();
    let result = filter_config(&config, &ignore);
    println!("Result: {:#?}", &result);
    assert_eq!(result.len(), 1);
    assert_eq!(result.get("port").unwrap().as_i64().unwrap(), 8080);
}

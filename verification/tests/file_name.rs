use dsdl_parser::ast::file_name::ParseFileNameError;
use dsdl_parser::FileName;
use dsdl_parser::Version;

#[test]
fn parse_file_name() {
    assert_eq!(FileName::from_str("NodeStatus.uavcan"), Ok(FileName { id: None, namespace: String::from(""), name: String::from("NodeStatus"), version: None }));
    assert_eq!(FileName::from_str("protocol.NodeStatus.uavcan"), Ok(FileName { id: None, namespace: String::from("protocol"), name: String::from("NodeStatus"), version: None }));
    assert_eq!(FileName::from_str("uavcan.protocol.NodeStatus.uavcan"), Ok(FileName { id: None, namespace: String::from("uavcan.protocol"), name: String::from("NodeStatus"), version: None }));
    assert_eq!(FileName::from_str("341.NodeStatus.uavcan"), Ok(FileName { id: Some(341), namespace: String::from(""), name: String::from("NodeStatus"), version: None }));
    assert_eq!(FileName::from_str("uavcan.protocol.341.NodeStatus.uavcan"), Ok(FileName { id: Some(341), namespace: String::from("uavcan.protocol"), name: String::from("NodeStatus"), version: None }));
    assert_eq!(FileName::from_str("NodeStatus.0.1.uavcan"), Ok(FileName { id: None, namespace: String::from(""), name: String::from("NodeStatus"), version: Some(Version{major: 0, minor: 1}) }));
    assert_eq!(FileName::from_str("uavcan.protocol.NodeStatus.0.1.uavcan"), Ok(FileName { id: None, namespace: String::from("uavcan.protocol"), name: String::from("NodeStatus"), version: Some(Version{major: 0, minor: 1}) }));
    assert_eq!(FileName::from_str("uavcan.protocol.341.NodeStatus.0.1.uavcan"), Ok(FileName { id: Some(341), namespace: String::from("uavcan.protocol"), name: String::from("NodeStatus"), version: Some(Version{major: 0, minor: 1}) }));
}

#[test]
fn file_name_errors() {
    assert_eq!(FileName::from_str("NodeStatus.txt"), Err(ParseFileNameError::MissingExtension));
    assert_eq!(FileName::from_str("NodeStatus"), Err(ParseFileNameError::MissingExtension));
    assert_eq!(FileName::from_str("uavcan"), Err(ParseFileNameError::Format));
    assert_eq!(FileName::from_str("1.uavcan"), Err(ParseFileNameError::Format));
    assert_eq!(FileName::from_str("NodeStatus.x.1.uavcan"), Err(ParseFileNameError::VersionFormat));
    assert_eq!(FileName::from_str("NodeStatus.-2.1.uavcan"), Err(ParseFileNameError::VersionFormat));
}

#[test]
fn file_name_numbers_follow_from_str() {
    // `+` is accepted before a number, as `u64::from_str` accepts it.
    assert_eq!(
        FileName::from_str("+7.Type.uavcan"),
        Ok(FileName { id: Some(7), namespace: String::from(""), name: String::from("Type"), version: None })
    );
    // A minor version too large for u32 is no version: it is read as the name.
    assert_eq!(
        FileName::from_str("a.4294967296.uavcan"),
        Ok(FileName { id: None, namespace: String::from("a"), name: String::from("4294967296"), version: None })
    );
    // The piece before the name is an id only when it is a number.
    assert_eq!(
        FileName::from_str("ns.12a.Type.uavcan"),
        Ok(FileName { id: None, namespace: String::from("ns.12a"), name: String::from("Type"), version: None })
    );
}

#[test]
fn split_namespace_examples() {
    let name = FileName {
        id: Some(341),
        namespace: String::from("uavcan.protocol"),
        name: String::from("NodeStatus"),
        version: None,
    };
    assert_eq!(name.split_namespace(), vec!["uavcan", "protocol"]);
    assert_eq!(name.rsplit_namespace(), vec!["protocol", "uavcan"]);

    let empty = FileName { id: None, namespace: String::new(), name: String::from("A"), version: None };
    assert!(empty.split_namespace().is_empty());
    assert!(empty.rsplit_namespace().is_empty());

    let odd = FileName { id: None, namespace: String::from("a..b."), name: String::from("A"), version: None };
    assert_eq!(odd.split_namespace(), vec!["a", "", "b", ""]);
    assert_eq!(odd.rsplit_namespace(), vec!["", "b", "", "a"]);
}

#[test]
fn display_file_name_and_version() {
    let name = FileName::from_str("uavcan.protocol.341.NodeStatus.0.1.uavcan").unwrap();
    assert_eq!(name.to_string(), "uavcan.protocol.NodeStatus");
    assert_eq!(name.version.unwrap().to_string(), "0.1");
    let bare = FileName::from_str("NodeStatus.uavcan").unwrap();
    assert_eq!(bare.to_string(), "NodeStatus");
    assert_eq!(Version { major: 12, minor: 305 }.to_string(), "12.305");
}

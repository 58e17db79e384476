use peer_workspace::forms::{connection_from_form, folder_from_form, new_connection_form, FormError};
use peer_workspace::project::{FolderSource, ProjectConnection, ProjectFile};
use peer_workspace::workspace::{ConnectionForm, FolderForm};

fn connection(name: &str, addr: &str) -> ProjectConnection {
    ProjectConnection {
        name: name.to_string(),
        proxy_addr: addr.to_string(),
        proxy_password: "p".to_string(),
        server_name: "alpha".to_string(),
        server_password: "s1".to_string(),
        prefer_p2p: false,
    }
}

#[test]
fn connection_form_is_trimmed() {
    let form = ConnectionForm {
        name: "  office ".to_string(),
        proxy_addr: " ws://h:9000/ws ".to_string(),
        proxy_password: " p ".to_string(),
        server_name: " alpha ".to_string(),
        server_password: " s1".to_string(),
        prefer_p2p: true,
    };
    let c = connection_from_form(&form).unwrap();
    assert_eq!(c.name, "office");
    assert_eq!(c.proxy_addr, "ws://h:9000/ws");
    assert_eq!(c.proxy_password, " p ");
    assert_eq!(c.server_name, "alpha");
    assert_eq!(c.server_password, " s1");
    assert!(c.prefer_p2p);
}

#[test]
fn connection_form_errors() {
    let mut form = new_connection_form();
    assert_eq!(form.proxy_addr, "ws://127.0.0.1:9000/ws");
    assert!(form.prefer_p2p);
    form.name = "   ".to_string();
    assert_eq!(connection_from_form(&form).unwrap_err(), FormError::NameRequired);
    form.name = "x".to_string();
    form.proxy_addr = " ".to_string();
    assert_eq!(connection_from_form(&form).unwrap_err(), FormError::ProxyAddressRequired);
    assert_eq!(FormError::NameRequired.message(), "Connection name is required.");
    assert_eq!(FormError::ProxyAddressRequired.message(), "Proxy address is required.");
}

#[test]
fn folder_forms() {
    let remote = FolderForm {
        name: " ".to_string(),
        is_remote: true,
        local_path: String::new(),
        remote_connection_name: "office".to_string(),
        remote_path: "/srv/code".to_string(),
    };
    let f = folder_from_form(&remote).unwrap();
    assert_eq!(f.name, "code");
    assert!(matches!(&f.source, FolderSource::Remote { connection_name, path } if connection_name == "office" && path == "/srv/code"));
    let local = FolderForm {
        name: " Mine ".to_string(),
        is_remote: false,
        local_path: "/home/me/work".to_string(),
        remote_connection_name: String::new(),
        remote_path: String::new(),
    };
    let f = folder_from_form(&local).unwrap();
    assert_eq!(f.name, "Mine");
    assert!(matches!(&f.source, FolderSource::Local { path } if path == "/home/me/work"));
    let missing = FolderForm { is_remote: true, remote_path: "/x".to_string(), ..Default::default() };
    assert_eq!(folder_from_form(&missing).unwrap_err(), FormError::RemoteFolderIncomplete);
    let empty = FolderForm::default();
    assert_eq!(folder_from_form(&empty).unwrap_err(), FormError::LocalPathRequired);
    assert_eq!(FormError::LocalPathRequired.message(), "Local folder path is required.");
    assert_eq!(FormError::RemoteFolderIncomplete.message(), "Remote folder requires connection and path.");
}

#[test]
fn put_connection_replaces_by_name() {
    let mut project = ProjectFile::default();
    project.put_connection(connection("a", "ws://1"));
    project.put_connection(connection("b", "ws://2"));
    project.put_connection(connection("a", "ws://3"));
    let names: Vec<(&str, &str)> = project
        .connections
        .iter()
        .map(|c| (c.name.as_str(), c.proxy_addr.as_str()))
        .collect();
    assert_eq!(names, vec![("b", "ws://2"), ("a", "ws://3")]);
}

#[test]
fn unicode_white_space_is_trimmed() {
    let form = ConnectionForm {
        name: "\u{3000}office\t\n".to_string(),
        proxy_addr: "\u{a0}ws://h/ws\u{2028}".to_string(),
        ..Default::default()
    };
    let c = connection_from_form(&form).unwrap();
    assert_eq!(c.name, "office");
    assert_eq!(c.proxy_addr, "ws://h/ws");
}

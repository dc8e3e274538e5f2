use task_server::options::Options;

#[test]
fn valid() {
    match Options::from_file_data("sender_email_address=username@domain.com\nsender_email_password=password123\nsender_email_smtp=smtp.domain.com\nenable_reminder_emails=false\nenable_expired_emails=true\nserver_ip=127.0.0.1\nserver_port=8085\n") {
        Ok(_) => assert!(true),
        Err(()) => assert!(false),
    }
}

#[test]
fn invalid_empty() {
    match Options::from_file_data("") {
        Ok(_) => assert!(false),
        Err(()) => assert!(true),
    }
}

#[test]
fn invalid_empty_address() {
    match Options::from_file_data("sender_email_address=\nsender_email_password=password123\nsender_email_smtp=smtp.domain.com\nenable_reminder_emails=false\nenable_expired_emails=true\nserver_ip=127.0.0.1\nserver_port=8085\n") {
        Ok(_) => assert!(false),
        Err(()) => assert!(true),
    }
}

#[test]
fn invalid_empty_password() {
    match Options::from_file_data("sender_email_address=username@domain.com\nsender_email_password=\nsender_email_smtp=smtp.domain.com\nenable_reminder_emails=false\nenable_expired_emails=true\nserver_ip=127.0.0.1\nserver_port=8085\n") {
        Ok(_) => assert!(false),
        Err(()) => assert!(true),
    }
}

#[test]
fn invalid_empty_stmp() {
    match Options::from_file_data("sender_email_address=username@domain.com\nsender_email_password=password123\nsender_email_smtp=\nenable_reminder_emails=false\nenable_expired_emails=true\nserver_ip=127.0.0.1\nserver_port=8085\n") {
        Ok(_) => assert!(false),
        Err(()) => assert!(true),
    }
}

#[test]
fn invalid_empty_reminder() {
    match Options::from_file_data("sender_email_address=username@domain.com\nsender_email_password=password123\nsender_email_smtp=smtp.domain.com\nenable_reminder_emails=\nenable_expired_emails=true\nserver_ip=127.0.0.1\nserver_port=8085\n") {
        Ok(_) => assert!(false),
        Err(()) => assert!(true),
    }
}

#[test]
fn invalid_empty_expired() {
    match Options::from_file_data("sender_email_address=username@domain.com\nsender_email_password=password123\nsender_email_smtp=smtp.domain.com\nenable_reminder_emails=false\nenable_expired_emails=\nserver_ip=127.0.0.1\nserver_port=8085\n") {
        Ok(_) => assert!(false),
        Err(()) => assert!(true),
    }
}

#[test]
fn invalid_empty_ip() {
    match Options::from_file_data("sender_email_address=username@domain.com\nsender_email_password=password123\nsender_email_smtp=smtp.domain.com\nenable_reminder_emails=false\nenable_expired_emails=true\nserver_ip=\nserver_port=8085\n") {
        Ok(_) => assert!(false),
        Err(()) => assert!(true),
    }
}

#[test]
fn invalid_empty_port() {
    match Options::from_file_data("sender_email_address=username@domain.com\nsender_email_password=password123\nsender_email_smtp=smtp.domain.com\nenable_reminder_emails=false\nenable_expired_emails=true\nserver_ip=127.0.0.1\nserver_port=\n") {
        Ok(_) => assert!(false),
        Err(()) => assert!(true),
    }
}

#[test]
fn invalid_reminder() {
    match Options::from_file_data("sender_email_address=username@domain.com\nsender_email_password=password123\nsender_email_smtp=smtp.domain.com\nenable_reminder_emails=nope\nenable_expired_emails=true\nserver_ip=127.0.0.1\nserver_port=8085\n") {
        Ok(_) => assert!(false),
        Err(()) => assert!(true),
    }
}

#[test]
fn invalid_expired() {
    match Options::from_file_data("sender_email_address=username@domain.com\nsender_email_password=password123\nsender_email_smtp=smtp.domain.com\nenable_reminder_emails=false\nenable_expired_emails=nope\nserver_ip=127.0.0.1\nserver_port=8085\n") {
        Ok(_) => assert!(false),
        Err(()) => assert!(true),
    }
}

#[test]
fn invalid_ip() {
    match Options::from_file_data("sender_email_address=username@domain.com\nsender_email_password=password123\nsender_email_smtp=smtp.domain.com\nenable_reminder_emails=false\nenable_expired_emails=true\nserver_ip=127.0.0.300\nserver_port=8085\n") {
        Ok(_) => assert!(false),
        Err(()) => assert!(true),
    }
}

#[test]
fn invalid_port() {
    match Options::from_file_data("sender_email_address=username@domain.com\nsender_email_password=password123\nsender_email_smtp=smtp.domain.com\nenable_reminder_emails=false\nenable_expired_emails=true\nserver_ip=127.0.0.1\nserver_port=aaa\n") {
        Ok(_) => assert!(false),
        Err(()) => assert!(true),
    }
}

#[test]
fn default_as_string() {
    let d = Options::default();

    assert_eq!(
        d.render(),
        String::from("sender_email_address=username@domain.com\nsender_email_password=password123\nsender_email_smtp=smtp.domain.com\nenable_reminder_emails=false\nenable_expired_emails=false\nserver_ip=127.0.0.1\nserver_port=8085\n")
    );
}

#[test]
fn parsed_fields_round_trip() {
    let text = "sender_email_address=username@domain.com\nsender_email_password=password123\nsender_email_smtp=smtp.domain.com\nenable_reminder_emails=true\nenable_expired_emails=false\nserver_ip=10.0.0.7\nserver_port=9000\n";
    let o = Options::from_file_data(text).unwrap();
    assert_eq!(o.sender_email_address().as_str(), "username@domain.com");
    assert_eq!(o.sender_email_password().as_str(), "password123");
    assert_eq!(o.sender_email_smtp().as_str(), "smtp.domain.com");
    assert!(o.enable_reminder_emails());
    assert!(!o.enable_expired_emails());
    assert_eq!(o.server_ip().as_str(), "10.0.0.7");
    assert_eq!(o.server_port(), 9000);
    assert_eq!(o.render(), text);
}

#[test]
fn parse_accepts_margins_and_case() {
    let text = "  \nsender_email_address=a@b.c\r\nsender_email_password=p\nsender_email_smtp=s.t\nenable_reminder_emails=TRUE\nenable_expired_emails=False\nserver_ip=0.0.0.0\nserver_port=1\r\n ";
    let o = Options::from_file_data(text).unwrap();
    assert!(o.enable_reminder_emails());
    assert!(!o.enable_expired_emails());
    assert_eq!(o.server_port(), 1);
}

#[test]
fn parse_rejects_wrong_line_order() {
    let text = "sender_email_password=p\nsender_email_address=a@b.c\nsender_email_smtp=s.t\nenable_reminder_emails=true\nenable_expired_emails=false\nserver_ip=0.0.0.0\nserver_port=1\n";
    assert!(Options::from_file_data(text).is_err());
}

#[test]
fn parse_rejects_port_overflow() {
    let text = "sender_email_address=a@b.c\nsender_email_password=p\nsender_email_smtp=s.t\nenable_reminder_emails=true\nenable_expired_emails=false\nserver_ip=0.0.0.0\nserver_port=65536\n";
    assert!(Options::from_file_data(text).is_err());
}

use sftp_tube::config::{parse_config, Config, ConfigError, ConfigKey};

fn sample() -> Config {
    Config {
        ip_and_port: "192.168.1.10:22".to_string(),
        root_folder_name: "srv".to_string(),
        temp_folder_name: "tmp".to_string(),
        temp_file_name: "clip.txt".to_string(),
    }
}

#[test]
fn loads_the_four_keys_in_order() {
    let text = "IP and port: 192.168.1.10:22\nRoot folder name: srv\nTemp folder name: tmp\nTemp file name: clip.txt\n";
    assert_eq!(parse_config(text), Ok(sample()));
}

#[test]
fn loads_any_order_with_blank_lines_and_unknown_keys() {
    let text = "\n# settings\nTemp file name:clip.txt\n\nColour: green\nRoot folder name :   srv  \n\n\nIP and port:\t192.168.1.10:22\nanother line without a colon\nTemp folder name: tmp";
    assert_eq!(parse_config(text), Ok(sample()));
}

#[test]
fn loads_a_file_with_carriage_returns() {
    let text = "IP and port: 192.168.1.10:22\r\nRoot folder name: srv\r\nTemp folder name: tmp\r\nTemp file name: clip.txt\r\n";
    assert_eq!(parse_config(text), Ok(sample()));
}

#[test]
fn value_keeps_its_own_colons_and_inner_spaces() {
    let text = "IP and port: host : 22 \nRoot folder name: my root\nTemp folder name: a:b:c\nTemp file name: ::";
    let config = parse_config(text).unwrap();
    assert_eq!(config.ip_and_port, "host : 22");
    assert_eq!(config.root_folder_name, "my root");
    assert_eq!(config.temp_folder_name, "a:b:c");
    assert_eq!(config.temp_file_name, "::");
}

#[test]
fn last_line_wins_where_a_key_is_set_twice() {
    let text = "IP and port: first\nRoot folder name: srv\nIP and port: second\nTemp folder name: tmp\nTemp file name: clip.txt\nIP and port: third";
    assert_eq!(parse_config(text).unwrap().ip_and_port, "third");
}

#[test]
fn empty_value_counts_as_set() {
    let text = "IP and port:\nRoot folder name: \nTemp folder name:\t\nTemp file name:";
    let config = parse_config(text).unwrap();
    assert_eq!(config.ip_and_port, "");
    assert_eq!(config.root_folder_name, "");
    assert_eq!(config.temp_folder_name, "");
    assert_eq!(config.temp_file_name, "");
}

#[test]
fn unicode_white_space_is_trimmed() {
    let text = "\u{3000}IP and port\u{a0}:\u{2003}addr\u{85}\nRoot folder name: srv\nTemp folder name: tmp\nTemp file name: clip.txt";
    assert_eq!(parse_config(text).unwrap().ip_and_port, "addr");
}

#[test]
fn keys_are_matched_exactly() {
    let text = "ip and port: addr\nRoot folder name: srv\nTemp folder name: tmp\nTemp file name: clip.txt";
    assert_eq!(parse_config(text), Err(ConfigError { missing: ConfigKey::IpAndPort }));
    let text = "IP and  port: addr\nRoot folder name: srv\nTemp folder name: tmp\nTemp file name: clip.txt";
    assert_eq!(parse_config(text), Err(ConfigError { missing: ConfigKey::IpAndPort }));
}

#[test]
fn missing_address_is_named() {
    let text = "Root folder name: srv\nTemp folder name: tmp\nTemp file name: clip.txt";
    assert_eq!(parse_config(text), Err(ConfigError { missing: ConfigKey::IpAndPort }));
}

#[test]
fn missing_root_folder_is_named() {
    let text = "IP and port: addr\nTemp folder name: tmp\nTemp file name: clip.txt";
    assert_eq!(parse_config(text), Err(ConfigError { missing: ConfigKey::RootFolderName }));
}

#[test]
fn missing_temp_folder_is_named() {
    let text = "Temp file name: clip.txt\nIP and port: addr\nRoot folder name: srv\n";
    assert_eq!(parse_config(text), Err(ConfigError { missing: ConfigKey::TempFolderName }));
}

#[test]
fn missing_temp_file_is_named() {
    let text = "IP and port: addr\nRoot folder name: srv\nTemp folder name: tmp\nTemp file name clip.txt";
    assert_eq!(parse_config(text), Err(ConfigError { missing: ConfigKey::TempFileName }));
}

#[test]
fn first_missing_key_is_named_where_several_are_missing() {
    assert_eq!(parse_config(""), Err(ConfigError { missing: ConfigKey::IpAndPort }));
    let text = "IP and port: addr\nTemp file name: clip.txt";
    assert_eq!(parse_config(text), Err(ConfigError { missing: ConfigKey::RootFolderName }));
    let text = "IP and port: addr\nRoot folder name: srv";
    assert_eq!(parse_config(text), Err(ConfigError { missing: ConfigKey::TempFolderName }));
}

#[test]
fn a_key_on_two_lines_is_not_set() {
    let text = "IP and port\n: addr\nRoot folder name: srv\nTemp folder name: tmp\nTemp file name: clip.txt";
    assert_eq!(parse_config(text), Err(ConfigError { missing: ConfigKey::IpAndPort }));
}

#[test]
fn error_messages_name_the_key() {
    let error = ConfigError { missing: ConfigKey::IpAndPort };
    assert_eq!(error.msg(), "IP and port not found");
    assert_eq!(error.to_text(), "Configuration Error: IP and port not found");
    let error = ConfigError { missing: ConfigKey::RootFolderName };
    assert_eq!(error.msg(), "Root folder name not found");
    let error = ConfigError { missing: ConfigKey::TempFolderName };
    assert_eq!(error.msg(), "Temp folder name not found");
    let error = ConfigError { missing: ConfigKey::TempFileName };
    assert_eq!(error.to_text(), "Configuration Error: Temp file name not found");
}

#[test]
fn labels_are_the_keys_of_the_file() {
    assert_eq!(ConfigKey::IpAndPort.label(), "IP and port");
    assert_eq!(ConfigKey::RootFolderName.label(), "Root folder name");
    assert_eq!(ConfigKey::TempFolderName.label(), "Temp folder name");
    assert_eq!(ConfigKey::TempFileName.label(), "Temp file name");
}

#[test]
fn loading_agrees_with_reading_line_by_line() {
    let files = [
        "IP and port: a\r\nRoot folder name: b\r\nTemp folder name: c\r\nTemp file name: d",
        "IP and port: a\n\n\nRoot folder name: b\nTemp folder name: c\nTemp file name: d\n\n",
        " IP and port : a : b \nRoot folder name:b\nTemp folder name:c\nother: x\nTemp file name:d\n",
        "IP and port: a\nRoot folder name: b\nTemp folder name: c\n",
        "no colon here\n:\n::\n",
    ];
    for text in files {
        let mut found: [Option<String>; 4] = [None, None, None, None];
        for line in text.lines() {
            let parts: Vec<&str> = line.splitn(2, ':').collect();
            if parts.len() == 2 {
                let value = Some(parts[1].trim().to_string());
                match parts[0].trim() {
                    "IP and port" => found[0] = value,
                    "Root folder name" => found[1] = value,
                    "Temp folder name" => found[2] = value,
                    "Temp file name" => found[3] = value,
                    _ => {}
                }
            }
        }
        match parse_config(text) {
            Ok(config) => {
                assert_eq!(Some(config.ip_and_port), found[0]);
                assert_eq!(Some(config.root_folder_name), found[1]);
                assert_eq!(Some(config.temp_folder_name), found[2]);
                assert_eq!(Some(config.temp_file_name), found[3]);
            }
            Err(error) => {
                let keys = [
                    ConfigKey::IpAndPort,
                    ConfigKey::RootFolderName,
                    ConfigKey::TempFolderName,
                    ConfigKey::TempFileName,
                ];
                let first = found.iter().position(|v| v.is_none()).unwrap();
                assert_eq!(error.missing, keys[first]);
            }
        }
    }
}

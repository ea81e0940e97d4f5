use soxy::api::IoErrorKind;
use soxy::clipboard::{
    order as clipboard_order, read_reply, read_response, write_reply, write_response, Command,
    ContentKind, Order, Response,
};
use soxy::config::{default_log_level, default_services, default_true, Config, Error, ServiceConfig};
use soxy::input::{
    key_lookup, order as input_order, InputAction, InputSetting, Key, KeyboardAction,
    KeyboardSetting, Order as InputOrder,
};
use soxy::stage0::{drained, order as stage0_order, sent_reply, Order as Stage0Order};
use soxy::text::{is_whole_line, split_order, str_eq};
use soxy::util::{best_address, find_best_address, BestAddress, InterfaceAddress};
use soxy::wire::{
    u16_from_be, u16_from_le, u16_to_be, u16_to_le, u32_from_le, u32_to_le, u64_from_le,
    u64_to_le, Parsed,
};
use soxy::x11::{key_to_keycode_and_modifiers, key_to_keysym, Error as X11Error, KeycodeAndModifier};
use soxy::clipboard::order_named as clipboard_named;
use soxy::ftp::{keyword, pwd_line, Command as FtpCommand, DataCommand, Keyword};
use soxy::backend::{channel_name, OpenError};
use soxy::input::{char_keys, key_with_name, order_with, text_keys};
use soxy::x11::{send_key, Stroke};
use soxy::stage0::order_named as stage0_named;
use soxy::{Level, VIRTUAL_CHANNEL_NAME};

#[test]
fn numbers_are_written_as_bytes() {
    assert_eq!(u16_to_le(0x1234), [0x34, 0x12]);
    assert_eq!(u16_from_le(0x34, 0x12), 0x1234);
    assert_eq!(u16_to_be(0x1234), [0x12, 0x34]);
    assert_eq!(u16_from_be(0x12, 0x34), 0x1234);
    assert_eq!(u32_to_le(0x1234_5678), [0x78, 0x56, 0x34, 0x12]);
    assert_eq!(u32_from_le(0x78, 0x56, 0x34, 0x12), 0x1234_5678);
    assert_eq!(u32_to_le(u32::MAX), [0xff; 4]);
    assert_eq!(
        u64_to_le(0x0102_0304_0506_0708),
        [8, 7, 6, 5, 4, 3, 2, 1]
    );
    assert_eq!(
        u64_from_le(&[0, 8, 7, 6, 5, 4, 3, 2, 1, 0], 1),
        0x0102_0304_0506_0708
    );
    assert_eq!(u64_to_le(u64::MAX), [0xff; 8]);
    for x in [0u32, 1, 255, 256, 65535, 65536, 0x00ff_ffff, 0x0100_0000, u32::MAX] {
        let b = u32_to_le(x);
        assert_eq!(b, x.to_le_bytes());
        assert_eq!(u32_from_le(b[0], b[1], b[2], b[3]), x);
    }
}

#[test]
fn lines_are_cut_into_command_and_argument() {
    assert_eq!(
        split_order("write hello  world\r\n"),
        ("WRITE".to_string(), "hello  world".to_string())
    );
    assert_eq!(split_order("quit\n"), ("QUIT".to_string(), String::new()));
    assert_eq!(split_order("quit"), ("QUIT".to_string(), String::new()));
    assert_eq!(split_order(""), (String::new(), String::new()));
    assert_eq!(split_order("a \n"), ("A".to_string(), String::new()));
    assert_eq!(split_order(" x\n"), (String::new(), "x".to_string()));
    assert_eq!(
        split_order("stra\u{df}e 1\n"),
        ("STRASSE".to_string(), "1".to_string())
    );
    assert!(is_whole_line("a\n"));
    assert!(!is_whole_line("a"));
    assert!(!is_whole_line(""));
}

#[test]
fn clipboard_lines() {
    assert_eq!(clipboard_order("READ\n"), Ok(Order::Read));
    assert_eq!(clipboard_order("get\r\n"), Ok(Order::Read));
    assert_eq!(
        clipboard_order("WRITE some text\n"),
        Ok(Order::Write("some text".to_string()))
    );
    assert_eq!(clipboard_order("put x\n"), Ok(Order::Write("x".to_string())));
    assert_eq!(clipboard_order("Exit\n"), Ok(Order::Exit));
    assert_eq!(clipboard_order("QUIT\n"), Ok(Order::Exit));
    assert_eq!(clipboard_order("\n"), Ok(Order::Invalid));
    assert_eq!(clipboard_order("copy\n"), Ok(Order::Invalid));
    assert_eq!(clipboard_order("READ"), Err(IoErrorKind::BrokenPipe));
    assert_eq!(clipboard_order(""), Err(IoErrorKind::BrokenPipe));
}

#[test]
fn clipboard_replies() {
    assert_eq!(
        read_reply(&Response::Text(b"a \"b\"\n".to_vec())),
        Some("ok \"a \\\"b\\\"\\n\"".to_string())
    );
    assert_eq!(read_reply(&Response::Failed), Some("KO".to_string()));
    assert_eq!(read_reply(&Response::WriteDone), None);
    assert_eq!(write_reply(&Response::WriteDone), Some("ok".to_string()));
    assert_eq!(write_reply(&Response::Failed), Some("KO".to_string()));
    assert_eq!(write_reply(&Response::Text(vec![])), None);
    assert_eq!(
        read_response(Some((ContentKind::Text, vec![1, 2]))),
        Response::Text(vec![1, 2])
    );
    assert_eq!(
        read_response(Some((ContentKind::Image, vec![1, 2]))),
        Response::Failed
    );
    assert_eq!(read_response(None), Response::Failed);
    assert_eq!(write_response(true), Response::WriteDone);
    assert_eq!(write_response(false), Response::Failed);
}

#[test]
fn clipboard_messages_cross_the_tunnel() {
    let mut wire = vec![];
    Command::Read.send(&mut wire);
    assert_eq!(wire, vec![0]);
    assert_eq!(Command::receive(&wire), Ok(Parsed::Complete(1, Command::Read)));
    let mut wire = vec![];
    Command::WriteText(vec![7, 8, 9]).send(&mut wire);
    assert_eq!(wire, vec![1, 3, 0, 0, 0, 0, 0, 0, 0, 7, 8, 9]);
    assert_eq!(
        Command::receive(&wire),
        Ok(Parsed::Complete(12, Command::WriteText(vec![7, 8, 9])))
    );
    assert_eq!(Command::receive(&wire[..11]), Ok(Parsed::Incomplete(12)));
    assert_eq!(Command::receive(&wire[..3]), Ok(Parsed::Incomplete(9)));
    assert_eq!(Command::receive(&[]), Ok(Parsed::Incomplete(1)));
    assert_eq!(Command::receive(&[2]), Err(IoErrorKind::InvalidData));
    assert_eq!(
        Command::receive(&[1, 0xff, 0xff, 0xff, 0xff, 0xff, 0xff, 0xff, 0xff]),
        Err(IoErrorKind::InvalidData)
    );
    for (response, expected) in [
        (Response::Text(vec![5]), vec![0u8, 1, 0, 0, 0, 0, 0, 0, 0, 5]),
        (Response::Failed, vec![1]),
        (Response::WriteDone, vec![2]),
    ] {
        let mut wire = vec![];
        response.send(&mut wire);
        assert_eq!(wire, expected);
        assert_eq!(
            Response::receive(&wire),
            Ok(Parsed::Complete(expected.len(), response))
        );
    }
    assert_eq!(Response::receive(&[3]), Err(IoErrorKind::InvalidData));
}

#[test]
fn uploader_lines() {
    assert_eq!(stage0_order("exit\n"), Ok(Stage0Order::Exit));
    assert_eq!(stage0_order("QUIT\r\n"), Ok(Stage0Order::Exit));
    for word in ["cat", "PUSH", "put", "Send", "UPLOAD"] {
        assert_eq!(
            stage0_order(&format!("{} /tmp/a file\n", word)),
            Ok(Stage0Order::Upload("/tmp/a file".to_string()))
        );
    }
    assert_eq!(stage0_order("get x\n"), Ok(Stage0Order::Invalid));
    assert_eq!(stage0_order("upload x"), Err(IoErrorKind::BrokenPipe));
    assert_eq!(sent_reply(0), "file sent (0 bytes)");
    assert_eq!(sent_reply(1600), "file sent (1600 bytes)");
    assert_eq!(drained(10, 5), 15);
    assert_eq!(drained(u64::MAX - 1, 5), u64::MAX);
}

#[test]
fn keys_have_names() {
    assert_eq!(key_lookup("alt"), Some(Key::AltLeft));
    assert_eq!(key_lookup("ALT_LEFT"), Some(Key::AltLeft));
    assert_eq!(key_lookup("altr"), Some(Key::AltRight));
    assert_eq!(key_lookup("Backspace"), Some(Key::Backspace));
    assert_eq!(key_lookup("ctrl"), Some(Key::Control));
    assert_eq!(key_lookup("del"), Some(Key::Delete));
    assert_eq!(key_lookup("esc"), Some(Key::Escape));
    assert_eq!(key_lookup("f1"), Some(Key::F1));
    assert_eq!(key_lookup("F10"), Some(Key::F10));
    assert_eq!(key_lookup("F11"), Some(Key::F11));
    assert_eq!(key_lookup("F12"), None);
    assert_eq!(key_lookup("hyper_l"), Some(Key::HyperLeft));
    assert_eq!(key_lookup("HYPERR"), Some(Key::HyperRight));
    assert_eq!(key_lookup("meta_left"), Some(Key::MetaLeft));
    assert_eq!(key_lookup("metar"), Some(Key::MetaRight));
    assert_eq!(key_lookup("enter"), Some(Key::Return));
    assert_eq!(key_lookup("return"), Some(Key::Return));
    assert_eq!(key_lookup("shift"), Some(Key::Shift));
    assert_eq!(key_lookup("super_l"), Some(Key::SuperLeft));
    assert_eq!(key_lookup("SUPER_RIGHT"), Some(Key::SuperRight));
    assert_eq!(key_lookup("tab"), Some(Key::Tab));
    assert_eq!(key_lookup("up"), Some(Key::Up));
    assert_eq!(key_lookup("down"), Some(Key::Down));
    assert_eq!(key_lookup("left"), Some(Key::Left));
    assert_eq!(key_lookup("right"), Some(Key::Right));
    assert_eq!(key_lookup("win"), Some(Key::Windows));
    assert_eq!(key_lookup("windows"), Some(Key::Windows));
    assert_eq!(key_lookup(""), None);
    assert_eq!(key_lookup("a"), None);
}

fn keyboard(order: InputOrder) -> KeyboardAction {
    match order {
        InputOrder::Action(InputAction::Keyboard(action)) => action,
        other => panic!("unexpected {:?}", other),
    }
}

#[test]
fn input_lines() {
    assert!(matches!(input_order("\n"), InputOrder::Nothing));
    assert!(matches!(input_order(""), InputOrder::Nothing));
    assert!(matches!(input_order("exit\n"), InputOrder::Exit));
    assert!(matches!(input_order("QUIT"), InputOrder::Exit));
    assert!(matches!(
        input_order("pause 250\n"),
        InputOrder::Action(InputAction::Pause(250))
    ));
    assert!(matches!(
        input_order("SLEEP 1\r\n"),
        InputOrder::Action(InputAction::Pause(1))
    ));
    assert!(matches!(
        input_order("delay 12\n"),
        InputOrder::Setting(InputSetting::Keyboard(KeyboardSetting::Delay(12)))
    ));
    match input_order("pause soon\n") {
        InputOrder::BadDelay(text) => assert_eq!(text, "soon"),
        other => panic!("unexpected {:?}", other),
    }
    assert!(matches!(input_order("delay -1\n"), InputOrder::BadDelay(_)));
    assert!(matches!(input_order("delay\n"), InputOrder::BadDelay(_)));
    assert_eq!(
        keyboard(input_order("write ls -la\n")),
        KeyboardAction::Write("ls -la".to_string())
    );
    assert_eq!(
        keyboard(input_order("writeln ls -la\n")),
        KeyboardAction::Write("ls -la\n".to_string())
    );
    assert_eq!(
        keyboard(input_order("keydown shift\n")),
        KeyboardAction::KeyDown(Key::Shift)
    );
    assert_eq!(
        keyboard(input_order("key enter\n")),
        KeyboardAction::KeyPress(Key::Return)
    );
    assert_eq!(
        keyboard(input_order("KEYPRESS tab\n")),
        KeyboardAction::KeyPress(Key::Tab)
    );
    assert_eq!(
        keyboard(input_order("keyup shift\n")),
        KeyboardAction::KeyUp(Key::Shift)
    );
    assert!(matches!(input_order("key nokey\n"), InputOrder::UnknownKey));
    assert!(matches!(input_order("keydown\n"), InputOrder::UnknownKey));
    match input_order("cat /tmp/script\n") {
        InputOrder::Cat(file) => assert_eq!(file, "/tmp/script"),
        other => panic!("unexpected {:?}", other),
    }
    assert!(matches!(input_order("type x\n"), InputOrder::Invalid));
}

#[test]
fn delays_are_decimal_numbers_of_sixty_four_bits() {
    assert!(matches!(
        input_order("pause +5\n"),
        InputOrder::Action(InputAction::Pause(5))
    ));
    assert!(matches!(
        input_order("pause 007\n"),
        InputOrder::Action(InputAction::Pause(7))
    ));
    assert!(matches!(
        input_order("pause 0\n"),
        InputOrder::Action(InputAction::Pause(0))
    ));
    assert!(matches!(
        input_order("pause 18446744073709551615\n"),
        InputOrder::Action(InputAction::Pause(u64::MAX))
    ));
    for bad in [
        "pause 18446744073709551616\n",
        "pause +\n",
        "pause ++5\n",
        "pause 5+\n",
        "pause -0\n",
        "pause 1_000\n",
        "pause 0x10\n",
        "pause 1.5\n",
        "pause \u{663}\n",
        "pause\n",
    ] {
        assert!(
            matches!(input_order(bad), InputOrder::BadDelay(_)),
            "{:?}",
            bad
        );
    }
    assert!(matches!(
        order_with("PAUSE", "+5".to_string(), Some(5), None),
        InputOrder::Action(InputAction::Pause(5))
    ));
}

#[test]
fn modifiers_are_bits() {
    let km = KeycodeAndModifier {
        keycode: 38,
        modifiers: 0x01 | 0x08 | 0x80,
    };
    assert!(km.contains_shift());
    assert!(!km.contains_control());
    assert!(km.contains_mod1());
    assert!(!km.contains_mod2());
    assert!(!km.contains_mod3());
    assert!(!km.contains_mod4());
    assert!(km.contains_mod5());
    let mut other = KeycodeAndModifier {
        keycode: 10,
        modifiers: 0x04 | 0x10,
    };
    assert!(other.contains_control() && other.contains_mod2());
    other.set_modifiers(km);
    assert_eq!(
        other,
        KeycodeAndModifier {
            keycode: 10,
            modifiers: 0x9d
        }
    );
    let all = KeycodeAndModifier {
        keycode: 0,
        modifiers: 0x20 | 0x40,
    };
    assert!(all.contains_mod3() && all.contains_mod4());
    assert_eq!(KeycodeAndModifier::default().modifiers, 0);
}

#[test]
fn keys_have_symbols() {
    assert_eq!(key_to_keysym(Key::Return), Ok(0xff0d));
    assert_eq!(key_to_keysym(Key::Windows), Ok(0xffeb));
    assert_eq!(key_to_keysym(Key::SuperLeft), Ok(0xffeb));
    assert_eq!(key_to_keysym(Key::Level3Shift), Ok(0xfe03));
    assert_eq!(key_to_keysym(Key::Level5Shift), Ok(0xfe11));
    assert_eq!(key_to_keysym(Key::Delete), Ok(0xffff));
    assert_eq!(key_to_keysym(Key::Printable('a')), Ok(0x61));
    assert_eq!(key_to_keysym(Key::Printable(' ')), Ok(0x20));
    assert_eq!(key_to_keysym(Key::Printable('\u{e9}')), Ok(0xe9));
    assert_eq!(key_to_keysym(Key::Printable('\u{20ac}')), Ok(0xac));
    assert_eq!(
        key_to_keysym(Key::Printable('\n')),
        Err(X11Error::InvalidCharacter('\n'))
    );
    assert_eq!(
        key_to_keysym(Key::Printable('\u{1f}')),
        Err(X11Error::InvalidCharacter('\u{1f}'))
    );
}

#[test]
fn the_way_with_the_fewest_modifiers_is_taken() {
    let km = |keycode, modifiers| KeycodeAndModifier { keycode, modifiers };
    assert_eq!(
        key_to_keycode_and_modifiers(&vec![], Key::Tab),
        Err(X11Error::KeycodeNotFoundForKey(Key::Tab))
    );
    assert_eq!(
        key_to_keycode_and_modifiers(&vec![km(9, 1)], Key::Tab),
        Ok(km(9, 1))
    );
    assert_eq!(
        key_to_keycode_and_modifiers(&vec![km(9, 1), km(50, 0), km(40, 0), km(3, 0x80)], Key::Tab),
        Ok(km(40, 0))
    );
    assert_eq!(
        key_to_keycode_and_modifiers(&vec![km(9, 4), km(8, 4), km(10, 4)], Key::Tab),
        Ok(km(8, 4))
    );
}

#[test]
fn the_widest_network_is_chosen() {
    let v4 = |ip, mask| InterfaceAddress::V4(ip, mask);
    let none = BestAddress {
        cidr4: None,
        cidr6: None,
    };
    assert_eq!(best_address(&vec![]), none);
    assert_eq!(
        best_address(&vec![
            v4([127, 0, 0, 1], Some([255, 0, 0, 0])),
            v4([224, 0, 0, 1], Some([255, 0, 0, 0])),
            v4([239, 1, 1, 1], Some([255, 0, 0, 0])),
            v4([0, 0, 0, 0], Some([255, 0, 0, 0])),
            v4([10, 0, 0, 1], None),
        ]),
        none
    );
    let mut ip6 = [0u8; 16];
    ip6[0] = 0x20;
    ip6[15] = 7;
    let mut mask64 = [0u8; 16];
    for b in mask64.iter_mut().take(8) {
        *b = 0xff;
    }
    let mut loopback6 = [0u8; 16];
    loopback6[15] = 1;
    let mut multicast6 = [0u8; 16];
    multicast6[0] = 0xff;
    let best = best_address(&vec![
        v4([192, 168, 1, 2], Some([255, 255, 255, 0])),
        v4([10, 1, 2, 3], Some([255, 255, 0, 0])),
        v4([172, 16, 0, 9], Some([255, 255, 0, 0])),
        v4([10, 9, 9, 9], Some([255, 255, 255, 252])),
        v4([223, 0, 0, 1], Some([255, 255, 255, 255])),
        InterfaceAddress::V6(loopback6, Some([0xff; 16])),
        InterfaceAddress::V6(multicast6, Some([0; 16])),
        InterfaceAddress::V6([0; 16], Some([0; 16])),
        InterfaceAddress::V6(ip6, Some([0xff; 16])),
        InterfaceAddress::V6(ip6, Some(mask64)),
        InterfaceAddress::V6(ip6, None),
    ]);
    assert_eq!(best.cidr4, Some(([10, 1, 2, 3], 16)));
    assert_eq!(best.cidr6, Some((ip6, 64)));
    let best = best_address(&vec![v4([1, 2, 3, 4], Some([0xaa, 0x55, 0x01, 0x80]))]);
    assert_eq!(best.cidr4, Some(([1, 2, 3, 4], 10)));
}

#[test]
fn the_machine_can_be_asked_for_its_addresses() {
    // which addresses the machine has is not known: the call must come back
    if let Ok(best) = find_best_address() {
        if let Some((ip, bits)) = best.cidr4 {
            assert!(ip[0] != 127 && bits <= 32);
        }
        if let Some((ip, bits)) = best.cidr6 {
            assert!(ip[0] != 0xff && bits <= 128);
        }
    }
}

#[test]
fn levels_have_names() {
    assert_eq!(Level::try_from("off"), Ok(Level::Off));
    assert_eq!(Level::try_from("Error"), Ok(Level::Error));
    assert_eq!(Level::try_from("warn"), Ok(Level::Warn));
    assert_eq!(Level::try_from("WARNING"), Ok(Level::Warn));
    assert_eq!(Level::try_from("info"), Ok(Level::Info));
    assert_eq!(Level::try_from("debug"), Ok(Level::Debug));
    assert_eq!(Level::try_from("TRACE"), Ok(Level::Trace));
    assert_eq!(
        Level::try_from("verbose"),
        Err("invalid log level".to_string())
    );
    assert_eq!(Level::try_from(""), Err("invalid log level".to_string()));
    assert_eq!(VIRTUAL_CHANNEL_NAME, "SOXY");
}

#[test]
fn the_default_configuration_lists_every_service() {
    assert_eq!(default_log_level(true), "DEBUG");
    assert_eq!(default_log_level(false), "INFO");
    assert!(default_true());
    let config = Config::default(false);
    assert_eq!(config.ip, "127.0.0.1");
    assert_eq!(config.log.level, "INFO");
    assert_eq!(config.log_level(), Level::Info);
    assert_eq!(config.log_file(), None);
    assert_eq!(config.services, default_services());
    let described: Vec<(String, bool, Option<String>, Option<u16>)> = config
        .services
        .iter()
        .map(|s| (s.name.clone(), s.enabled, s.ip.clone(), s.port))
        .collect();
    assert_eq!(
        described,
        vec![
            ("clipboard".to_string(), true, None, Some(3032)),
            ("command".to_string(), true, None, Some(3031)),
            ("input".to_string(), true, None, Some(1081)),
            ("ftp".to_string(), true, None, Some(2021)),
            ("socks5".to_string(), true, None, Some(1080)),
            ("stage0".to_string(), true, None, Some(1081)),
        ]
    );
}

#[test]
fn endpoints_follow_the_configuration() {
    let mut config = Config::default(true);
    assert_eq!(config.log_level(), Level::Debug);
    config.log.level = "chatty".to_string();
    assert_eq!(config.log_level(), Level::Info);
    config.log.file = Some("/tmp/soxy.log".to_string());
    assert_eq!(config.log_file(), Some(&"/tmp/soxy.log".to_string()));
    let service = |name: &str, ip: Option<&str>, port| ServiceConfig {
        name: name.to_string(),
        enabled: true,
        ip: ip.map(|s| s.to_string()),
        port,
    };
    let endpoint = config.endpoint(&service("ftp", None, None)).unwrap();
    assert_eq!(
        (endpoint.service.name(), endpoint.ip.as_str(), endpoint.port),
        ("ftp", "127.0.0.1", 2021)
    );
    let endpoint = config
        .endpoint(&service("socks5", Some("0.0.0.0"), Some(9050)))
        .unwrap();
    assert_eq!(
        (endpoint.service.name(), endpoint.ip.as_str(), endpoint.port),
        ("socks5", "0.0.0.0", 9050)
    );
    assert_eq!(
        config.endpoint(&service("gopher", None, Some(70))).err(),
        Some(Error::UnknownService("gopher".to_string()))
    );
}

#[test]
fn commands_in_capitals_are_known() {
    assert_eq!(keyword("STOR"), Some(Keyword::Stor));
    assert_eq!(keyword("stor"), None);
    assert_eq!(
        FtpCommand::with_keyword(Keyword::Cwd, "/x".to_string()),
        FtpCommand::Cwd("/x".to_string())
    );
    assert_eq!(
        FtpCommand::with_keyword(Keyword::Pwd, "ignored".to_string()),
        FtpCommand::Pwd
    );
    assert_eq!(
        DataCommand::with_code(4, "f".to_string()),
        Some(DataCommand::Retr("f".to_string()))
    );
    assert_eq!(DataCommand::with_code(7, "f".to_string()), None);
    assert_eq!(pwd_line("\"/\""), "257 \"/\" is the current directory");
    assert_eq!(soxy::clipboard::text_reply("\"a\""), "ok \"a\"");
    assert_eq!(clipboard_named("GET", String::new()), Order::Read);
    assert_eq!(clipboard_named("get", String::new()), Order::Invalid);
    assert_eq!(
        stage0_named("SEND", "f".to_string()),
        Stage0Order::Upload("f".to_string())
    );
    assert_eq!(stage0_named("send", "f".to_string()), Stage0Order::Invalid);
    assert_eq!(key_with_name("ESC"), Some(Key::Escape));
    assert_eq!(key_with_name("esc"), None);
    assert!(matches!(
        order_with("PAUSE", "7".to_string(), Some(7), None),
        InputOrder::Action(InputAction::Pause(7))
    ));
    assert!(matches!(
        order_with("KEYUP", "tab".to_string(), None, Some(Key::Tab)),
        InputOrder::Action(InputAction::Keyboard(KeyboardAction::KeyUp(Key::Tab)))
    ));
    assert!(matches!(
        order_with("keyup", "tab".to_string(), None, Some(Key::Tab)),
        InputOrder::Invalid
    ));
    assert_eq!(Level::named("WARNING"), Some(Level::Warn));
    assert_eq!(Level::named("warning"), None);
}

#[test]
fn a_text_is_typed_key_by_key() {
    assert_eq!(text_keys(""), vec![]);
    assert_eq!(
        text_keys("a~\nB"),
        vec![
            Key::Printable('a'),
            Key::Printable('~'),
            Key::Printable(' '),
            Key::Return,
            Key::Printable('B'),
        ]
    );
    assert_eq!(char_keys('\n'), vec![Key::Return]);
    assert_eq!(char_keys('\r'), vec![Key::Printable('\r')]);
    assert_eq!(
        text_keys("\u{e9}\u{20ac}"),
        vec![Key::Printable('\u{e9}'), Key::Printable('\u{20ac}')]
    );
}

#[test]
fn a_key_is_sent_between_its_modifiers() {
    let plain = KeycodeAndModifier {
        keycode: 38,
        modifiers: 0,
    };
    assert_eq!(
        send_key(plain, true, true),
        vec![Stroke::Main(true), Stroke::Main(false)]
    );
    assert_eq!(send_key(plain, true, false), vec![Stroke::Main(true)]);
    assert_eq!(send_key(plain, false, true), vec![Stroke::Main(false)]);
    assert_eq!(send_key(plain, false, false), vec![]);
    let held = KeycodeAndModifier {
        keycode: 38,
        modifiers: 0x01 | 0x04 | 0x08 | 0x10 | 0x20 | 0x40 | 0x80,
    };
    assert_eq!(
        send_key(held, true, true),
        vec![
            Stroke::Modifier(true, Key::Shift),
            Stroke::Modifier(true, Key::Control),
            Stroke::Modifier(true, Key::Level3Shift),
            Stroke::Modifier(true, Key::Level3Shift),
            Stroke::Main(true),
            Stroke::Modifier(false, Key::Shift),
            Stroke::Modifier(false, Key::Control),
            Stroke::Modifier(false, Key::Level3Shift),
            Stroke::Modifier(false, Key::Level3Shift),
            Stroke::Main(false),
        ]
    );
    let shifted = KeycodeAndModifier {
        keycode: 1,
        modifiers: 0x01,
    };
    assert_eq!(
        send_key(shifted, false, true),
        vec![
            Stroke::Modifier(true, Key::Shift),
            Stroke::Modifier(false, Key::Shift),
            Stroke::Main(false),
        ]
    );
}

#[test]
fn channel_names_are_padded_with_zeros() {
    assert_eq!(
        channel_name(b"SOXY"),
        Ok([b'S' as i8, b'O' as i8, b'X' as i8, b'Y' as i8, 0, 0, 0, 0])
    );
    assert_eq!(channel_name(b""), Ok([0; 8]));
    assert_eq!(
        channel_name(b"1234567"),
        Ok([49, 50, 51, 52, 53, 54, 55, 0])
    );
    assert_eq!(
        channel_name(b"12345678"),
        Err(OpenError::InvalidChannelName)
    );
    assert_eq!(
        channel_name(&[b'S', 0x80]),
        Err(OpenError::InvalidChannelName)
    );
    assert_eq!(channel_name(VIRTUAL_CHANNEL_NAME.as_bytes()).map(|n| n[3]), Ok(89));
}

#[test]
fn texts_are_compared_and_joined_letter_by_letter() {
    assert!(str_eq("", ""));
    assert!(str_eq("PASV", "PASV"));
    assert!(!str_eq("PASV", "pasv"));
    assert!(!str_eq("PASV", "PAS"));
    assert!(!str_eq("\u{e9}", "e\u{301}"));
    assert_eq!(
        soxy::text::concat("ok ".to_string(), "\u{e9}t\u{e9}"),
        "ok \u{e9}t\u{e9}"
    );
    assert_eq!(soxy::text::concat(String::new(), ""), "");
    assert_eq!(soxy::text::concat("a".to_string(), ""), "a");
}

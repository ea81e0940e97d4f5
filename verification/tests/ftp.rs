use soxy::api::IoErrorKind;
use soxy::ftp::{
    cmd_cwd, cmd_dele, cmd_list, cmd_nlst, cmd_size, data_transfer, Awaiting, Command,
    DataCommand, DataReply, EntryKind, Passive, Request, Session, Step,
};
use soxy::wire::Parsed;

const PASSIVE: Passive = Passive {
    ip: Some([192, 168, 1, 20]),
    port: 0x1234,
};

fn reply(step: Step) -> Vec<String> {
    match step {
        Step::Reply(lines) => lines,
        other => panic!("unexpected {:?}", other),
    }
}

#[test]
fn size_of_a_file_through_the_tunnel() {
    let (mut session, welcome) = Session::new();
    assert_eq!(welcome, vec!["220 Welcome"]);
    let command = Command::read("SIZE /tmp/foo\r\n");
    assert_eq!(command, Some(Command::Size("/tmp/foo".to_string())));
    let (data_command, awaiting) = match session.control(command, &PASSIVE) {
        Step::Ask(command, awaiting) => (command, awaiting),
        other => panic!("unexpected {:?}", other),
    };
    assert_eq!(data_command, DataCommand::Size("/tmp/foo".to_string()));
    assert!(data_command.is_ftp_control());
    // through the tunnel and back
    let mut wire = Vec::new();
    data_command.send(&mut wire);
    let mut expected = vec![5, 8, 0, 0, 0, 0, 0, 0, 0];
    expected.extend_from_slice(b"/tmp/foo");
    assert_eq!(wire, expected);
    assert_eq!(
        DataCommand::receive(&wire),
        Ok(Parsed::Complete(17, DataCommand::Size("/tmp/foo".to_string())))
    );
    let answer = cmd_size(true, Some(12345));
    assert_eq!(answer, DataReply::SizeOk(12345));
    let mut wire = Vec::new();
    answer.send(&mut wire);
    assert_eq!(wire, vec![2, 0x39, 0x30, 0, 0, 0, 0, 0, 0]);
    assert_eq!(
        DataReply::receive(&wire),
        Ok(Parsed::Complete(9, DataReply::SizeOk(12345)))
    );
    assert_eq!(session.answer(awaiting, answer), vec!["213 12345"]);
}

#[test]
fn lines_are_read_as_commands() {
    assert_eq!(Command::read("CDUP\r\n"), Some(Command::Cdup));
    assert_eq!(Command::read("cwd /a b\r\n"), Some(Command::Cwd("/a b".to_string())));
    assert_eq!(Command::read("Dele x\r\n"), Some(Command::Dele("x".to_string())));
    assert_eq!(Command::read("EPSV\r\n"), Some(Command::Epsv));
    assert_eq!(Command::read("FEAT\r\n"), Some(Command::Feat));
    assert_eq!(Command::read("LIST -la\r\n"), Some(Command::List));
    assert_eq!(Command::read("NLST\r\n"), Some(Command::Nlst));
    assert_eq!(Command::read("OPTS UTF8 ON\r\n"), Some(Command::Opts));
    assert_eq!(Command::read("PASS secret\r\n"), Some(Command::Pass));
    assert_eq!(Command::read("PASV\r\n"), Some(Command::Pasv));
    assert_eq!(Command::read("PWD\r\n"), Some(Command::Pwd));
    assert_eq!(Command::read("quit\r\n"), Some(Command::Quit));
    assert_eq!(Command::read("RETR f\r\n"), Some(Command::Retr("f".to_string())));
    assert_eq!(Command::read("STOR f\r\n"), Some(Command::Stor("f".to_string())));
    assert_eq!(Command::read("SIZE\r\n"), Some(Command::Size(String::new())));
    assert_eq!(Command::read("TYPE I\r\n"), Some(Command::Type));
    assert_eq!(Command::read("USER anonymous\r\n"), Some(Command::User));
    assert_eq!(Command::read("NOOP\r\n"), None);
    assert_eq!(Command::read("PWD\n"), None);
    assert_eq!(Command::read("PWD"), None);
    assert_eq!(Command::read(" PWD\r\n"), None);
    assert_eq!(Command::read("\r\n"), None);
}

#[test]
fn requests_that_need_no_backend() {
    let (mut session, _) = Session::new();
    assert_eq!(reply(session.step(None, &PASSIVE)), vec!["500 Syntax error"]);
    assert_eq!(
        reply(session.step(Some(Request::Epsv), &PASSIVE)),
        vec!["229 Entering Extended Passive Mode (|||4660|)"]
    );
    assert_eq!(
        reply(session.step(Some(Request::Feat), &PASSIVE)),
        vec![
            "211-Features:",
            " EPRT",
            " EPSV",
            " PASV",
            " REST STREAM",
            " SIZE",
            " TVFS",
            " UTF8",
            "211 End"
        ]
    );
    assert_eq!(reply(session.step(Some(Request::Opts), &PASSIVE)), vec!["200 Command okay"]);
    assert_eq!(reply(session.step(Some(Request::Type), &PASSIVE)), vec!["200 Command okay"]);
    assert_eq!(
        reply(session.step(Some(Request::Pass), &PASSIVE)),
        vec!["220 Login successful"]
    );
    assert_eq!(
        reply(session.step(Some(Request::User), &PASSIVE)),
        vec!["331 Provide password"]
    );
    assert_eq!(
        reply(session.step(Some(Request::Pasv), &PASSIVE)),
        vec!["227 Entering Passive Mode (192,168,1,20,18,52)"]
    );
    let v6 = Passive {
        ip: None,
        port: 21,
    };
    assert_eq!(
        reply(session.step(Some(Request::Pasv), &v6)),
        vec!["425 Can't open data connection"]
    );
    assert_eq!(
        reply(session.step(Some(Request::Pwd), &PASSIVE)),
        vec!["257 \"/\" is the current directory"]
    );
    assert_eq!(session.step(Some(Request::Quit), &PASSIVE), Step::Quit);
    assert_eq!(session.current_path(), "/");
}

#[test]
fn changing_directory_waits_for_the_backend() {
    let (mut session, _) = Session::new();
    let step = session.control(Command::read("CWD /srv/data\r\n"), &PASSIVE);
    let awaiting = match step {
        Step::Ask(DataCommand::Cwd(path), awaiting) => {
            assert_eq!(path, "/srv/data");
            awaiting
        }
        other => panic!("unexpected {:?}", other),
    };
    assert_eq!(awaiting, Awaiting::Cwd("/srv/data".to_string()));
    assert_eq!(session.current_path(), "/");
    assert_eq!(
        session.answer(awaiting, DataReply::Ko),
        vec!["550 Failed to change directory"]
    );
    assert_eq!(session.current_path(), "/");
    assert_eq!(
        session.answer(Awaiting::Cwd("/srv/data".to_string()), DataReply::CwdOk),
        vec!["250 Directory successfully changed"]
    );
    assert_eq!(session.current_path(), "/srv/data");
    assert_eq!(
        reply(session.step(Some(Request::Pwd), &PASSIVE)),
        vec!["257 \"/srv/data\" is the current directory"]
    );
    // listing is about the current directory
    match session.control(Command::read("LIST\r\n"), &PASSIVE) {
        Step::Transfer(DataCommand::List(path), lines) => {
            assert_eq!(path, "/srv/data");
            assert_eq!(lines, vec!["150 Here comes the directory listing"]);
        }
        other => panic!("unexpected {:?}", other),
    }
    match session.control(Command::read("nlst\r\n"), &PASSIVE) {
        Step::Transfer(DataCommand::NLst(path), lines) => {
            assert_eq!(path, "/srv/data");
            assert_eq!(lines, vec!["150 Here comes the directory listing"]);
        }
        other => panic!("unexpected {:?}", other),
    }
}

#[test]
fn going_up_follows_what_the_platform_says() {
    let (mut session, _) = Session::new();
    assert_eq!(
        reply(session.step(Some(Request::Cdup(true, "/a".to_string())), &PASSIVE)),
        vec!["250 Directory successfully changed"]
    );
    assert_eq!(session.current_path(), "/a");
    assert_eq!(
        reply(session.step(Some(Request::Cdup(false, "/".to_string())), &PASSIVE)),
        vec!["550 Failed to change directory"]
    );
    assert_eq!(session.current_path(), "/a");
}

#[test]
fn paths_are_worked_out_against_the_current_directory() {
    let (mut session, _) = Session::new();
    session.answer(Awaiting::Cwd("/srv/data".to_string()), DataReply::CwdOk);
    assert_eq!(
        session.resolve(Command::Retr("file.txt".to_string())),
        Request::Retr("/srv/data/file.txt".to_string())
    );
    assert_eq!(
        session.resolve(Command::Stor("/abs".to_string())),
        Request::Stor("/abs".to_string())
    );
    assert_eq!(
        session.resolve(Command::Cwd("sub".to_string())),
        Request::Cwd("/srv/data/sub".to_string())
    );
    assert_eq!(
        session.resolve(Command::Cdup),
        Request::Cdup(true, "/srv".to_string())
    );
    assert_eq!(
        reply(session.control(Some(Command::Cdup), &PASSIVE)),
        vec!["250 Directory successfully changed"]
    );
    assert_eq!(session.current_path(), "/srv");
    session.control(Some(Command::Cdup), &PASSIVE);
    assert_eq!(session.current_path(), "/");
    assert_eq!(
        reply(session.control(Some(Command::Cdup), &PASSIVE)),
        vec!["550 Failed to change directory"]
    );
}

#[test]
fn absolute_paths_stand_as_they_are() {
    let (mut session, _) = Session::new();
    session.answer(Awaiting::Cwd("/srv/data".to_string()), DataReply::CwdOk);
    assert_eq!(session.full_path("/".to_string()), "/");
    assert_eq!(session.full_path("/etc/../x".to_string()), "/etc/../x");
    assert_eq!(session.full_path("//a".to_string()), "//a");
    assert_eq!(session.full_path("a/b".to_string()), "/srv/data/a/b");
    assert_eq!(
        session.resolve(Command::Cwd("/other".to_string())),
        Request::Cwd("/other".to_string())
    );
    assert_eq!(
        session.resolve(Command::Dele("/tmp/x".to_string())),
        Request::Dele("/tmp/x".to_string())
    );
    assert_eq!(
        session.resolve(Command::Retr("/tmp/y".to_string())),
        Request::Retr("/tmp/y".to_string())
    );
    assert_eq!(
        session.resolve(Command::Size("/tmp/z".to_string())),
        Request::Size("/tmp/z".to_string())
    );
    assert_eq!(
        session.resolve(Command::Size("z".to_string())),
        Request::Size("/srv/data/z".to_string())
    );
    assert_eq!(session.current_path(), "/srv/data");
}

#[test]
fn transfers_and_deletions() {
    let (mut session, _) = Session::new();
    assert_eq!(
        session.step(Some(Request::Retr("/f".to_string())), &PASSIVE),
        Step::Transfer(
            DataCommand::Retr("/f".to_string()),
            vec!["125 Data connection already open; transfer starting".to_string()]
        )
    );
    assert_eq!(
        session.step(Some(Request::Stor("/f".to_string())), &PASSIVE),
        Step::Transfer(
            DataCommand::Stor("/f".to_string()),
            vec!["125 Data connection already open; transfer starting".to_string()]
        )
    );
    assert_eq!(
        session.step(Some(Request::Dele("/f".to_string())), &PASSIVE),
        Step::Ask(DataCommand::Dele("/f".to_string()), Awaiting::Dele)
    );
    assert_eq!(
        session.answer(Awaiting::Dele, DataReply::DeleteOk),
        vec!["200 Command okay"]
    );
    assert_eq!(
        session.answer(Awaiting::Dele, DataReply::Ko),
        vec!["550 Delete failed"]
    );
    assert_eq!(
        session.answer(Awaiting::Size, DataReply::Ko),
        vec!["540 Invalid path"]
    );
    assert_eq!(
        session.answer(Awaiting::Size, DataReply::CwdOk),
        vec!["540 Invalid path"]
    );
    assert_eq!(
        session.answer(Awaiting::Size, DataReply::SizeOk(0)),
        vec!["213 0"]
    );
    assert_eq!(
        session.answer(Awaiting::Size, DataReply::SizeOk(u64::MAX)),
        vec!["213 18446744073709551615"]
    );
    assert_eq!(data_transfer(true), vec!["226 Closing data connection"]);
    assert_eq!(
        data_transfer(false),
        vec!["426 Connection closed; transfer aborted"]
    );
}

#[test]
fn data_commands_cross_the_tunnel() {
    let path = "d\u{e9}j\u{e0}".to_string();
    for (command, code, control, upload) in [
        (DataCommand::Cwd(path.clone()), 0u8, true, false),
        (DataCommand::Dele(path.clone()), 1, true, false),
        (DataCommand::List(path.clone()), 2, false, false),
        (DataCommand::NLst(path.clone()), 3, false, false),
        (DataCommand::Retr(path.clone()), 4, false, false),
        (DataCommand::Size(path.clone()), 5, true, false),
        (DataCommand::Stor(path.clone()), 6, false, true),
    ] {
        assert_eq!(command.is_ftp_control(), control);
        assert_eq!(command.is_upload(), upload);
        let mut wire = vec![];
        command.send(&mut wire);
        assert_eq!(wire[0], code);
        assert_eq!(&wire[1..9], &[6, 0, 0, 0, 0, 0, 0, 0]);
        assert_eq!(&wire[9..], path.as_bytes());
        for n in 0..9 {
            assert_eq!(DataCommand::receive(&wire[..n]), Ok(Parsed::Incomplete(9)));
        }
        assert_eq!(DataCommand::receive(&wire[..12]), Ok(Parsed::Incomplete(15)));
        wire.push(0);
        assert_eq!(DataCommand::receive(&wire), Ok(Parsed::Complete(15, command)));
    }
    assert_eq!(
        DataCommand::receive(&[7, 0, 0, 0, 0, 0, 0, 0, 0]),
        Err(IoErrorKind::InvalidData)
    );
    match DataCommand::receive(&[0, 1, 0, 0, 0, 0, 0, 0, 0, 0x80]) {
        Ok(Parsed::Complete(10, DataCommand::Cwd(path))) => assert_eq!(path, "\u{fffd}"),
        other => panic!("unexpected {:?}", other),
    }
}

#[test]
fn data_replies_cross_the_tunnel() {
    for (reply, wire, ok) in [
        (DataReply::DataTransferOk, vec![0u8], true),
        (DataReply::CwdOk, vec![1], true),
        (DataReply::SizeOk(0x0102_0304_0506_0708), vec![2, 8, 7, 6, 5, 4, 3, 2, 1], true),
        (DataReply::DeleteOk, vec![3], true),
        (DataReply::Ko, vec![4], false),
    ] {
        assert_eq!(reply.is_ok(), ok);
        let mut sent = vec![];
        reply.send(&mut sent);
        assert_eq!(sent, wire);
        assert_eq!(DataReply::receive(&sent), Ok(Parsed::Complete(wire.len(), reply)));
    }
    assert_eq!(DataReply::receive(&[]), Ok(Parsed::Incomplete(1)));
    assert_eq!(DataReply::receive(&[2, 1, 2]), Ok(Parsed::Incomplete(9)));
    assert_eq!(DataReply::receive(&[5]), Err(IoErrorKind::InvalidData));
}

#[test]
fn backend_replies_and_listings() {
    assert_eq!(cmd_cwd(true), DataReply::CwdOk);
    assert_eq!(cmd_cwd(false), DataReply::Ko);
    assert_eq!(cmd_dele(true, true), DataReply::DeleteOk);
    assert_eq!(cmd_dele(true, false), DataReply::Ko);
    assert_eq!(cmd_dele(false, true), DataReply::Ko);
    assert_eq!(cmd_size(true, Some(7)), DataReply::SizeOk(7));
    assert_eq!(cmd_size(true, None), DataReply::Ko);
    assert_eq!(cmd_size(false, Some(7)), DataReply::Ko);
    assert_eq!(
        cmd_list(EntryKind::Directory, Some(4096), "etc"),
        "drwxrwxrwx 1 ftp ftp 4096 etc\r\n"
    );
    assert_eq!(
        cmd_list(EntryKind::File, Some(12), "a b.txt"),
        "-rwxrwxrwx 1 ftp ftp 12 a b.txt\r\n"
    );
    assert_eq!(
        cmd_list(EntryKind::Other, None, "link"),
        "lrwxrwxrwx 1 ftp ftp 0 link\r\n"
    );
    assert_eq!(cmd_nlst("name"), "name\r\n");
}

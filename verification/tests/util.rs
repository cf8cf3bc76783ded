use ringrtc::util::redact::{
    compile_regex, redact_ice_password, redact_string, replace_all, replace_ranges, Redactor,
};
use ringrtc::util::text::{decimal_string, uuid_to_string};

#[test]
fn check_replace_all() {
    let re = compile_regex("bbb").unwrap();
    {
        let test_str = "aaa bbb ccc bbbb ddd";
        let result = replace_all(test_str, &re, "x");
        assert_eq!("aaa x ccc xb ddd", result);
    }
    {
        let test_str = "bbb ccc bbbb ddd";
        let result = replace_all(test_str, &re, "x");
        assert_eq!("x ccc xb ddd", result);
    }
    {
        let test_str = "aaa bbb ccc bbb";
        let result = replace_all(test_str, &re, "x");
        assert_eq!("aaa x ccc x", result);
    }
    {
        let test_str = "bbbbbbbbb";
        let result = replace_all(test_str, &re, "x");
        assert_eq!("xxx", result);
    }
}

#[test]
fn check_ipv6() {
    let addrs = [
        "fe80::2d8:61ff:fe57:83f6",
        "Fe80::2d8:61ff:fe57:83f6",
        "fE80::2d8:61ff:fe57:83f6",
        "1::7:8",
        "1:2:3:4:5::7:8",
        "1:2:3:4:5::8",
        "1::8",
        "1:2:3:4:5:6::8",
        "1:2:3:4:5:6::8",
        "2021:0db8:85a3:0000:0000:8a2e:0370:7334",
        "2301:db8:85a3::8a2e:370:7334",
        "4601:746:9600:dec1:2d8:61ff:fe57:83f6",
        "fe80::2d8:61ff:fe57:83f6",
        "::1",
        "::0",
        "::",
        "::ffff:0:192.0.2.128",
        "::ffff:192.0.2.128",
        "1::",
        "1:2:3:4:5:6:7::",
        "1::8",
        "1:2:3:4:5:6::8",
        "1:2:3:4:5:6::8",
        "1::7:8",
        "1:2:3:4:5::7:8",
        "1:2:3:4:5::8",
        "1::6:7:8",
        "1:2:3:4::6:7:8",
        "1:2:3:4::8",
        "1::5:6:7:8",
        "1:2:3::5:6:7:8",
        "1:2:3::8",
        "1::4:5:6:7:8",
        "1:2::4:5:6:7:8",
        "1:2::8",
        "1::3:4:5:6:7:8",
        "1::3:4:5:6:7:8",
        "1::8",
        "::2:3:4:5:6:7:8",
        "::2:3:4:5:6:7:8",
        "::8",
        "fe80::7:8%eth0",
        "fe80::7:8%1",
        "::255.255.255.255",
        "::ffff:255.255.255.255",
        "2001:db8:3:4::192.0.2.33",
        "64:ff9b::192.0.2.33",
    ];

    let prefix = ["", "text", "text ", "<", "@"];

    let suffix = ["", " text", ">", "@"];

    let redactor = Redactor::new().unwrap();
    for a in addrs.iter() {
        for p in prefix.iter() {
            for s in suffix.iter() {
                let addr = format!("{}{}{}", p, a, s);
                let scrubbed = redactor.redact_ipv6(&addr);
                assert_eq!(
                    (&addr, &*scrubbed),
                    (&addr, &*format!("{}[REDACTED ipv6]{}", p, s))
                );
            }
        }
    }
}

#[test]
fn check_ipv4() {
    let addrs = [
        "0.0.0.0",
        "000.000.000.000",
        "000.000.000.00",
        "000.000.000.0",
        "000.000.00.000",
        "000.000.0.000",
        "000.00.000.000",
        "000.0.000.000",
        "00.000.000.000",
        "0.000.000.000",
        "255.255.255.255",
        "248.255.255.245",
        "228.255.255.225",
        "12.01.0.0",
        "192.008.022.1",
        "192.000.002.1",
        "242.068.0.1",
        "092.168.122.1",
        "002.168.122.1",
        "2.168.122.1",
        "92.168.122.1",
        "242.068.0.1",
        "092.168.2.1",
        "002.8.122.2",
        "2.168.122.9",
        "92.168.122.250",
    ];

    let prefix = ["", "text", "text ", "<", "@"];

    let suffix = ["", " text", ">", "@"];

    let redactor = Redactor::new().unwrap();
    for a in addrs.iter() {
        for p in prefix.iter() {
            for s in suffix.iter() {
                let addr = format!("{}{}{}", p, a, s);
                let scrubbed = redactor.redact_ipv4(&addr);
                assert_eq!(
                    (&addr, &*scrubbed),
                    (&addr, &*format!("{}[REDACTED ipv4]{}", p, s))
                );
            }
        }
    }
}

#[test]
fn check_ice_pwd() {
    let test_str = "abc\nice-pwd\ndef\n ice-pwd \nghi";
    let result = redact_ice_password(test_str);
    assert_eq!(
        "abc\na=ice-pwd:[ REDACTED ]\ndef\na=ice-pwd:[ REDACTED ]\nghi",
        result,
    );
}

#[test]
fn ice_pwd_free_text_is_kept_whole() {
    let test_str = "abc\r\ndef\n";
    assert_eq!(test_str, redact_ice_password(test_str));
}

#[test]
fn ice_pwd_redaction_rejoins_lines() {
    let test_str = "a=ice-pwd:secret\r\nb\r\n";
    assert_eq!("a=ice-pwd:[ REDACTED ]\nb", redact_ice_password(test_str));
}

#[test]
fn redact_string_scrubs_everything() {
    let text = "a=ice-pwd:hunter2\nfrom 192.168.1.20 and fe80::1%eth0 ok";
    assert_eq!(
        "a=ice-pwd:[ REDACTED ]\nfrom [REDACTED ipv4] and [REDACTED ipv6] ok",
        redact_string(text)
    );
}

#[test]
fn replace_ranges_splices_in_order() {
    let text = "héllo wörld";
    let result = replace_ranges(text, &vec![(0, 1), (7, 10)], "_");
    assert_eq!("_éllo _rld", result);
    assert_eq!(text, replace_ranges(text, &vec![], "_"));
}

#[test]
fn uuid_strings() {
    assert_eq!(uuid_to_string(&[]), "");
    assert_eq!(uuid_to_string(&[0x01, 0xAB, 0xCD]), "");
    assert_eq!(
        uuid_to_string(&[
            0x11, 0x22, 0x33, 0x44, 0x55, 0x66, 0x77, 0x88, 0x99, 0x00, 0xaa, 0xbb, 0xcc, 0xdd,
            0xee, 0xff
        ]),
        "11223344-5566-7788-9900-aabbccddeeff"
    );
    assert_eq!(
        uuid_to_string(&[
            0xb3, 0x9b, 0x70, 0xb0, 0x1c, 0xc8, 0x4b, 0x00, 0xb9, 0x32, 0x18, 0x31, 0x03, 0x76,
            0x03, 0x15
        ]),
        "b39b70b0-1cc8-4b00-b932-183103760315"
    );
}

#[test]
fn decimal_strings() {
    assert_eq!("0", decimal_string(0));
    assert_eq!("9", decimal_string(9));
    assert_eq!("10", decimal_string(10));
    assert_eq!("18446744073709551615", decimal_string(u64::MAX));
}

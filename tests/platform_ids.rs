use agent_crypto::platform_id::{parse_ioreg_uuid, parse_machine_guid};

fn ioreg_by_std(out: &str) -> Option<String> {
    out.lines()
        .find(|line| line.contains("IOPlatformUUID"))
        .and_then(|line| line.split('"').nth(3).map(|s| s.to_string()))
}

fn reg_by_std(out: &str) -> Option<String> {
    out.lines()
        .find(|line| line.contains("MachineGuid"))
        .and_then(|line| line.split_whitespace().last().map(|s| s.to_string()))
}

const IOREG: &str = "+-o Mac  <class IOPlatformExpertDevice>\n  {\n    \"IOPlatformSerialNumber\" = \"C02XYZ\"\n    \"IOPlatformUUID\" = \"5A1B2C3D-0000-1111-2222-333344445555\"\n    \"model\" = <\"MacBookPro\">\n  }\n";

const REG: &str = "\r\nHKEY_LOCAL_MACHINE\\SOFTWARE\\Microsoft\\Cryptography\r\n    MachineGuid    REG_SZ    0f1e2d3c-4b5a-6978-8796-a5b4c3d2e1f0\r\n\r\n";

#[test]
fn ioreg_uuid_is_the_fourth_quoted_field() {
    assert_eq!(
        parse_ioreg_uuid(IOREG),
        Some("5A1B2C3D-0000-1111-2222-333344445555".to_string())
    );
}

#[test]
fn machine_guid_is_the_last_token() {
    assert_eq!(
        parse_machine_guid(REG),
        Some("0f1e2d3c-4b5a-6978-8796-a5b4c3d2e1f0".to_string())
    );
}

#[test]
fn parsers_agree_with_line_splitting() {
    let samples = [
        IOREG,
        REG,
        "",
        "nothing here\n",
        "\"IOPlatformUUID\" = \n",
        "a\"IOPlatformUUID\"b\"c\r\nnext",
        "x \"IOPlatformUUID\" = \"open",
        "MachineGuid",
        "MachineGuid   \r\n",
        "  MachineGuid REG_SZ\tguid-9\u{3000}\n",
        "first\nsecond MachineGuid last\rmore\r\nthird MachineGuid other",
        "\"IOPlatformUUID\"\"\"\"",
    ];
    for out in samples {
        assert_eq!(parse_ioreg_uuid(out), ioreg_by_std(out), "ioreg on {:?}", out);
        assert_eq!(parse_machine_guid(out), reg_by_std(out), "reg on {:?}", out);
    }
}

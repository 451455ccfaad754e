use canister_fleet::canister_list::{
    controllers_from_info, first_canisters, parse_canister_list, principals_from_rows, split_lines,
};
use canister_fleet::sns::{
    change_canister_function_name, install_mode_number, next_release_label, proposal_id_from_text, proposal_id_of,
    proposal_summary, proposal_title, reinstall_proposal, release_label, timestamp_version, Action, Command, CanisterInstallMode, CommandResponse, MakeProposalResponse,
    ManageNeuronResponse, ProposalId,
};
use canister_fleet::text::{chars_of, decimal_chars, parse_u64_chars, text_has, trim_chars};

fn chars(s: &str) -> Vec<char> {
    s.chars().collect()
}

#[test]
fn proposal_ids_are_read_from_the_reply_text() {
    let reply = "(record { command = opt variant { MakeProposal = record { proposal_id = opt record { id = 1_234 : nat64 } } } })";
    assert_eq!(proposal_id_from_text(reply), Some(1234));
    assert_eq!(proposal_id_from_text("no id here"), None);
    assert_eq!(proposal_id_from_text("id = abc : nat64"), None);
    assert_eq!(proposal_id_from_text("a = 1 : nat64; b = 2 : nat64"), Some(1));
}

#[test]
fn proposal_ids_of_decoded_replies() {
    let with = ManageNeuronResponse {
        command: Some(CommandResponse::MakeProposal(MakeProposalResponse { proposal_id: Some(ProposalId { id: 77 }) })),
    };
    assert_eq!(proposal_id_of(&with), Some(77));
    let without = ManageNeuronResponse { command: Some(CommandResponse::MakeProposal(MakeProposalResponse { proposal_id: None })) };
    assert_eq!(proposal_id_of(&without), None);
    assert_eq!(proposal_id_of(&ManageNeuronResponse { command: None }), None);
}

#[test]
fn release_labels_count_up() {
    assert_eq!(release_label(1), "v1");
    assert_eq!(release_label(0), "v0");
    assert_eq!(next_release_label(41), "v42");
    assert_eq!(release_label(-3), "v-3");
    assert_eq!(release_label(i64::MIN), format!("v{}", i64::MIN));
    assert_eq!(proposal_title("v3"), "Upgrade platform_orchestrator to v3");
    assert_eq!(proposal_summary("v3"), "# Upgrade platform_orchestrator to v3");
    assert_eq!(change_canister_function_name(), "change_canister (id=5001)");
}

#[test]
fn install_mode_numbers() {
    assert_eq!(install_mode_number(CanisterInstallMode::Install), 1);
    assert_eq!(install_mode_number(CanisterInstallMode::Reinstall), 2);
    assert_eq!(install_mode_number(CanisterInstallMode::Upgrade), 3);
}

#[test]
fn canister_list_skips_header_blanks_and_bad_lines() {
    let text = "principal\r\nrrkah-fqaaa-aaaaa-aaaaq-cai\n\n  ryjl3-tyaaa-aaaaa-aaaba-cai  \nnot-a-principal\n";
    let list = parse_canister_list(text);
    assert_eq!(list.principals.len(), 2);
    assert_eq!(list.principals[0].to_text(), "rrkah-fqaaa-aaaaa-aaaaq-cai");
    assert_eq!(list.principals[1].to_text(), "ryjl3-tyaaa-aaaaa-aaaba-cai");
    assert_eq!(list.invalid.len(), 1);
    assert_eq!(list.invalid[0].line_number, 5);
    assert_eq!(list.invalid[0].text, "not-a-principal");
    let first = first_canisters(&list, 1);
    assert_eq!(first.len(), 1);
    assert_eq!(first_canisters(&list, 10).len(), 2);
}

#[test]
fn lines_split_like_str_lines() {
    let lines = split_lines(&chars("a\r\nb\n\nc"));
    let got: Vec<String> = lines.iter().map(|l| l.iter().collect()).collect();
    let want: Vec<String> = "a\r\nb\n\nc".lines().map(|l| l.to_string()).collect();
    assert_eq!(got, want);
    assert!(split_lines(&chars("")).is_empty());
    assert_eq!(split_lines(&chars("x\n")).len(), 1);
}

#[test]
fn database_rows_parse_or_give_the_first_error() {
    let rows = vec![Some("aaaaa-aa".to_string()), Some("2vxsx-fae".to_string())];
    let ps = principals_from_rows(&rows).ok().unwrap();
    assert_eq!(ps.len(), 2);
    assert_eq!(ps[1].as_slice(), &[4]);
    let rows = vec![Some("aaaaa-aa".to_string()), None, Some("bad!".to_string())];
    assert_eq!(principals_from_rows(&rows).err().unwrap(), "Text is too short.");
    assert_eq!(principals_from_rows(&vec![]).ok().unwrap().len(), 0);
}

#[test]
fn text_helpers() {
    assert_eq!(trim_chars(&chars("  a b \t")), chars("a b"));
    assert!(text_has("hello world", "o w"));
    assert!(!text_has("hello", "hello!"));
    assert!(text_has("abc", ""));
    assert_eq!(decimal_chars(0), chars("0"));
    assert_eq!(decimal_chars(18_446_744_073_709_551_615), chars("18446744073709551615"));
    assert_eq!(parse_u64_chars(&chars("+12")), Some(12));
    assert_eq!(parse_u64_chars(&chars("18446744073709551616")), None);
    assert_eq!(parse_u64_chars(&chars("")), None);
    assert_eq!(parse_u64_chars(&chars("+")), None);
    assert_eq!(chars_of("xy"), chars("xy"));
}

#[test]
fn timestamp_versions_pad_year_and_second_of_day() {
    assert_eq!(timestamp_version(0), "1970000000");
    assert_eq!(timestamp_version(86_400 * 365 + 5), "1971000005");
    assert_eq!(timestamp_version(86_399), "1970086399");
    let secs: u64 = 1_700_000_000;
    let year = 1970 + secs / 86_400 / 365;
    assert_eq!(timestamp_version(secs), format!("{year:04}{:06}", secs % 86_400));
}

#[test]
fn controllers_are_read_from_the_first_controllers_line() {
    let info = "Module hash: None\nControllers: 2vxsx-fae  garbage\taaaaa-aa\nControllers: rrkah-fqaaa-aaaaa-aaaaq-cai\n";
    let found = controllers_from_info(info).unwrap();
    assert_eq!(found.len(), 2);
    assert_eq!(found[0].as_slice(), &[4]);
    assert_eq!(found[1].as_slice(), &[] as &[u8]);
    assert!(controllers_from_info("Module hash: None\n").is_none());
    assert!(controllers_from_info(" Controllers: 2vxsx-fae").is_none());
    assert_eq!(controllers_from_info("Controllers:").unwrap().len(), 0);
}

#[test]
fn reinstall_proposals_carry_the_release() {
    let po = canister_fleet::principal::Principal::from_slice(&[1, 2]);
    let m = reinstall_proposal(vec![7; 32], "v4", po, vec![0, 97, 115, 109]);
    assert_eq!(m.subaccount, vec![7; 32]);
    match m.command {
        Some(Command::MakeProposal(p)) => {
            assert_eq!(p.title, "Upgrade platform_orchestrator to v4");
            assert_eq!(p.summary, "# Upgrade platform_orchestrator to v4");
            assert_eq!(p.url, "https://yral.com");
            match p.action {
                Some(Action::UpgradeSnsControlledCanister(u)) => {
                    assert_eq!(u.canister_id.unwrap().as_slice(), &[1, 2]);
                    assert_eq!(u.new_canister_wasm, vec![0, 97, 115, 109]);
                    assert_eq!(u.mode, Some(2));
                    assert!(u.canister_upgrade_arg.is_none());
                }
                _ => panic!("expected an upgrade"),
            }
        }
        None => panic!("expected a proposal"),
    }
}

#[test]
fn white_space_matches_std_on_every_char() {
    for u in 0u32..=0x10FFFF {
        if let Some(c) = char::from_u32(u) {
            assert_eq!(canister_fleet::text::is_whitespace(c), c.is_whitespace(), "U+{u:04X}");
        }
    }
}

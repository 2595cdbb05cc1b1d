use pappap_core::ethics::EthicsFilter;
use pappap_core::evolution::GhostCellOrchestrator;
use pappap_core::governance::{NeuroDAO, ProposalStatus};
use pappap_core::persona::RenderParams;

#[test]
fn clean_content_passes_the_filter() {
    assert!(EthicsFilter::check("a perfectly harmless message").is_ok());
    assert!(EthicsFilter::check("").is_ok());
}

#[test]
fn banned_keyword_is_reported() {
    let v = EthicsFilter::check("giao dịch ma túy bị cấm").unwrap_err();
    assert_eq!(v.word, "ma túy");
}

#[test]
fn filter_lowercases_before_matching() {
    let v = EthicsFilter::check("MA TÚY").unwrap_err();
    assert_eq!(v.word, "ma túy");
    assert!(EthicsFilter::check("matuy without the space or accents").is_ok());
}

#[test]
fn first_keyword_in_list_order_wins() {
    // both occur; the blacklist checks its words in order
    let v = EthicsFilter::check("khủng bố và lừa đảo").unwrap_err();
    assert_eq!(v.word, "khủng bố");
}

#[test]
fn ghost_cell_vitality_and_time_remaining() {
    let born = 1_700_000_000u64;
    let cell = GhostCellOrchestrator::new(born);
    // alive the moment it is born, and just inside the limit
    assert!(cell.check_vitality(born));
    assert!(cell.check_vitality(born + 220_752_000));
    assert!(!cell.check_vitality(born + 220_752_001));
    // a clock reading before birth counts as age zero
    assert!(cell.check_vitality(born - 100));
    assert_eq!(cell.time_remaining(born), 220_752_000);
    assert_eq!(cell.time_remaining(born + 220_752_000), 0);
    assert_eq!(cell.time_remaining(born + 220_751_999), 1);
    assert_eq!(cell.time_remaining(born + 300_000_000), 0);
}

#[test]
fn proposals_get_increasing_ids() {
    let mut dao = NeuroDAO::new();
    let a = dao.create_proposal("title a".to_string(), "desc a".to_string());
    let b = dao.create_proposal("title b".to_string(), "desc b".to_string());
    assert_eq!(a, 1);
    assert_eq!(b, 2);
    let list = dao.list_proposals();
    assert_eq!(list.len(), 2);
    assert_eq!(list[0].id, 1);
    assert_eq!(list[0].title, "title a");
    assert_eq!(list[0].votes_yes, 0);
    assert_eq!(list[0].votes_no, 0);
    assert_eq!(list[0].status, ProposalStatus::Active);
    assert_eq!(list[1].id, 2);
    assert_eq!(list[1].description, "desc b");
}

#[test]
fn render_params_default_and_integrity() {
    let p = RenderParams::default();
    assert_eq!(p.tempo, 60);
    assert_eq!(p.warmth, 127);
    assert_eq!(p.reserved, vec![0u8; 50]);
    assert_eq!(p.eternal_signature, vec![7u8; 7]);
    assert!(p.is_sanitized());
    let mut bad = p.clone();
    bad.eternal_signature[3] = 6;
    assert!(!bad.is_sanitized());
}

#[test]
fn render_params_byte_round_trip() {
    let mut p = RenderParams::default();
    p.hue = 1;
    p.saturation = 2;
    p.brightness = 3;
    p.curvature = 4;
    p.depth = 9;
    let bytes = p.to_bytes();
    assert_eq!(bytes.len(), 64);
    assert_eq!(&bytes[0..7], &[1, 2, 3, 4, 60, 127, 9]);
    assert_eq!(&bytes[57..64], &[7u8; 7]);
    let q = RenderParams::from_bytes(&bytes);
    assert_eq!(q, p);
    assert_eq!(q.to_bytes(), bytes);
}

use conduit::ids::{entry_id, job_id, session_id, upload_handle};
use conduit::registry::Registry;

#[test]
fn records_are_found_by_identifier() {
    let mut r: Registry<u32> = Registry::new();
    assert_eq!(r.len(), 0);
    assert_eq!(r.insert("a", 1), None);
    assert_eq!(r.insert("b", 2), None);
    assert_eq!(r.insert("c", 3), None);
    assert_eq!(r.insert("b", 20), Some(2));
    assert_eq!(r.len(), 3);
    assert_eq!((r.get("a"), r.get("b"), r.get("c")), (Some(&1), Some(&20), Some(&3)));
    assert_eq!(r.remove("a"), Some(1));
    assert_eq!(r.remove("a"), None);
    assert_eq!((r.get("a"), r.get("b"), r.get("c")), (None, Some(&20), Some(&3)));
    let mut seen: Vec<(String, u32)> =
        (0..r.len()).map(|i| (r.at(i).0.to_string(), *r.at(i).1)).collect();
    seen.sort();
    assert_eq!(seen, vec![("b".to_string(), 20), ("c".to_string(), 3)]);
}

#[test]
fn records_are_picked_and_removed() {
    let mut r: Registry<u32> = Registry::new();
    for (k, v) in [("a", 1), ("b", 2), ("c", 3), ("d", 4)] {
        r.insert(k, v);
    }
    let mut ids = r.ids_where(|v| v % 2 == 0);
    ids.sort();
    assert_eq!(ids, vec!["b", "d"]);
    assert_eq!(r.remove_all(&ids), vec![2, 4]);
    assert_eq!(r.len(), 2);
    assert_eq!((r.get("a"), r.get("b"), r.get("c"), r.get("d")), (Some(&1), None, Some(&3), None));
}

#[test]
fn identifiers_have_their_form() {
    for (id, prefix) in [(session_id(), "cs_"), (job_id(), "job_"), (upload_handle(), "up_")] {
        let digits = id.strip_prefix(prefix).unwrap();
        assert_eq!(digits.len(), 32);
        assert!(digits.chars().all(|c| matches!(c, '0'..='9' | 'a'..='f')));
    }
    let e = entry_id();
    let parts: Vec<usize> = e.split('-').map(|p| p.len()).collect();
    assert_eq!(parts, vec![8, 4, 4, 4, 12]);
    assert_ne!(session_id(), session_id());
}

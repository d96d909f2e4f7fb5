use std::collections::HashMap;

use beaver::beaverio::{export_and_release, BeaverBufReader, BeaverBufWriter, PoliciedString};
use beaver::filter::{
    Context, CustomContext, FileContext, IpAddress, ListenConnectionsContext, Permission,
    RemoteConnectContext,
};
use beaver::generic_policied::{
    AsPolicied, ExternalizePolicy, GPolicied, GPoliciedVec, InternalizePolicy, PoliciedValHashMap,
};
use beaver::policy::{OwnerPolicy, Policy, PolicyError};

fn file(name: &str) -> Context {
    Context::File(FileContext {
        file_name: name.to_string(),
        path: "src/".to_string(),
        permission: Permission::ReadWrite,
    })
}

fn client(a: u8, b: u8, c: u8, d: u8) -> Context {
    Context::ClientNetwork(RemoteConnectContext {
        remote_ip_address: IpAddress::V4(a, b, c, d),
        port: 5000,
    })
}

fn server() -> Context {
    Context::ServerNetwork(ListenConnectionsContext { ip_address: IpAddress::V4(127, 0, 0, 1) })
}

fn kv() -> Context {
    let mut m = HashMap::new();
    m.insert("purpose".to_string(), "audit".to_string());
    Context::KVContext(m)
}

fn custom() -> Context {
    Context::CustomContext(CustomContext { kind: "email".to_string(), payload: vec![1, 2, 3] })
}

fn readers(names: &[&str]) -> Policy {
    Policy::Owned(OwnerPolicy { readers: names.iter().map(|n| n.to_string()).collect() })
}

fn all_contexts() -> Vec<Context> {
    vec![file("malte"), file("kinan"), client(10, 38, 53, 87), server(), kv(), custom()]
}

#[test]
fn baseline_permits_every_context() {
    for c in all_contexts() {
        assert_eq!(Policy::NonePolicy.check(&c), Ok(()));
    }
}

#[test]
fn merge_with_baseline_behaves_like_other() {
    for p in [Policy::NonePolicy, Policy::owned_by("malte".to_string()), readers(&["malte", "livia"])] {
        let left = Policy::NonePolicy.merge(&p).unwrap();
        let right = p.merge(&Policy::NonePolicy).unwrap();
        for c in all_contexts() {
            assert_eq!(left.check(&c), p.check(&c));
            assert_eq!(right.check(&c), p.check(&c));
        }
    }
}

#[test]
fn merged_policy_permits_only_what_both_permit() {
    let p1 = readers(&["malte", "livia", "kinan"]);
    let p2 = readers(&["kinan", "livia"]);
    let m = p1.merge(&p2).unwrap();
    for name in ["malte", "livia", "kinan", "sreshtaa"] {
        let c = file(name);
        if m.check(&c).is_ok() {
            assert!(p1.check(&c).is_ok());
            assert!(p2.check(&c).is_ok());
        }
    }
    assert_eq!(m.check(&file("livia")), Ok(()));
    assert_eq!(m.check(&file("kinan")), Ok(()));
    assert_eq!(m.check(&file("malte")), Err(PolicyError::ContextRejected));
}

#[test]
fn export_check_consumes_and_releases() {
    let g = GPolicied::make("grade 85".to_string(), Policy::owned_by("malte".to_string()));
    assert_eq!(g.export_check(&file("malte")), Ok("grade 85".to_string()));
    let refused = GPolicied::make("grade 87".to_string(), Policy::owned_by("kinan".to_string()));
    assert_eq!(refused.export_check(&file("malte")), Err(PolicyError::ContextRejected));
}

#[test]
fn export_check_borrow_keeps_wrapper() {
    let g = GPolicied::make(85u64, Policy::owned_by("malte".to_string()));
    assert_eq!(g.export_check_borrow(&file("malte")), Ok(&85));
    assert_eq!(g.export_check_borrow(&file("kinan")), Err(PolicyError::ContextRejected));
    assert_eq!(g.export_check_borrow(&file("malte")), Ok(&85));
}

#[test]
fn container_rejects_what_any_pushed_policy_rejects() {
    let mut v: GPoliciedVec<u64> = GPolicied::make_default(Vec::new());
    v.push(GPolicied::make(85, readers(&["malte", "livia"]))).unwrap();
    v.push(GPolicied::make(87, readers(&["kinan", "livia"]))).unwrap();
    v.push(GPolicied::make(82, Policy::NonePolicy)).unwrap();
    let p = v.get_policy();
    assert_eq!(p.check(&file("malte")), Err(PolicyError::ContextRejected));
    assert_eq!(p.check(&file("kinan")), Err(PolicyError::ContextRejected));
    assert_eq!(p.check(&client(10, 38, 16, 198)), Err(PolicyError::ContextRejected));
    assert_eq!(p.check(&file("livia")), Ok(()));
    assert_eq!(v.export_check_borrow(&file("livia")), Ok(&vec![85, 87, 82]));
}

#[test]
fn push_of_unmergeable_policy_leaves_container() {
    let mut v: GPoliciedVec<u64> = GPolicied::make_default(Vec::new());
    v.push(GPolicied::make(85, Policy::owned_by("malte".to_string()))).unwrap();
    let r = v.push(GPolicied::make(87, Policy::owned_by("kinan".to_string())));
    assert_eq!(r, Err(PolicyError::UnmergeablePolicies));
    assert_eq!(v.export_check_borrow(&file("malte")), Ok(&vec![85]));
}

#[test]
fn pop_rewraps_with_container_policy() {
    let mut v: GPoliciedVec<u64> = GPolicied::make_default(Vec::new());
    v.push(GPolicied::make(1, Policy::NonePolicy)).unwrap();
    v.push(GPolicied::make(2, Policy::owned_by("malte".to_string()))).unwrap();
    let top = v.pop().unwrap();
    let below = v.pop().unwrap();
    assert!(v.pop().is_none());
    assert_eq!(below.export_check_borrow(&file("kinan")), Err(PolicyError::ContextRejected));
    assert_eq!(below.export_check(&file("malte")), Ok(1));
    assert_eq!(top.export_check(&file("malte")), Ok(2));
}

#[test]
fn declassify_resets_to_baseline() {
    let mut g = GPolicied::make(85u64, readers(&["malte"]));
    g.declassify();
    for c in all_contexts() {
        assert_eq!(g.get_policy().check(&c), Ok(()));
    }
}

#[test]
fn owner_bound_policy_follows_file_name() {
    let p = Policy::owned_by("malte".to_string());
    assert_eq!(p.check(&file("malte")), Ok(()));
    assert_eq!(p.check(&file("kinan")), Err(PolicyError::ContextRejected));
}

#[test]
fn merging_two_owners_rejects_both() {
    let malte = readers(&["malte", "livia"]);
    let kinan = readers(&["kinan", "livia"]);
    let m = malte.merge(&kinan).unwrap();
    assert_eq!(m.check(&file("malte")), Err(PolicyError::ContextRejected));
    assert_eq!(m.check(&file("kinan")), Err(PolicyError::ContextRejected));
    assert_eq!(m.check(&file("livia")), Ok(()));
}

#[test]
fn merging_exclusive_owners_fails() {
    let malte = Policy::owned_by("malte".to_string());
    let kinan = Policy::owned_by("kinan".to_string());
    assert!(matches!(malte.merge(&kinan), Err(PolicyError::UnmergeablePolicies)));
}

#[test]
fn owner_bound_policy_denies_network() {
    for owner in ["malte", "kinan", "livia"] {
        let p = Policy::owned_by(owner.to_string());
        assert_eq!(p.check(&client(10, 38, 53, 87)), Err(PolicyError::ContextRejected));
        assert_eq!(p.check(&client(10, 38, 16, 198)), Err(PolicyError::ContextRejected));
        assert_eq!(p.check(&server()), Err(PolicyError::ContextRejected));
    }
}

#[test]
fn owner_bound_policy_refuses_unknown_contexts() {
    let p = Policy::owned_by("malte".to_string());
    assert_eq!(p.check(&kv()), Err(PolicyError::UnsupportedContext));
    assert_eq!(p.check(&custom()), Err(PolicyError::UnsupportedContext));
}

#[test]
fn declassify_then_allow() {
    let mut g = GPolicied::make("sreshtaa".to_string(), Policy::owned_by("sreshtaa".to_string()));
    let ctx = file("malte");
    assert_eq!(g.export_check_borrow(&ctx), Err(PolicyError::ContextRejected));
    g.declassify();
    assert_eq!(g.export_check(&ctx), Ok("sreshtaa".to_string()));
}

#[test]
fn apply_merges_policies() {
    let f = GPolicied::make(|x: u64| x + 1, readers(&["malte", "livia"]));
    let x = GPolicied::make(41u64, readers(&["livia"]));
    let r = f.apply(x).unwrap();
    assert_eq!(r.export_check_borrow(&file("malte")), Err(PolicyError::ContextRejected));
    assert_eq!(r.export_check(&file("livia")), Ok(42));
}

#[test]
fn apply_of_unmergeable_policies_fails() {
    let f = GPolicied::make(|x: u64| x + 1, Policy::owned_by("malte".to_string()));
    let x = GPolicied::make(41u64, Policy::owned_by("kinan".to_string()));
    assert!(matches!(f.apply(x), Err(PolicyError::UnmergeablePolicies)));
}

#[test]
fn map_keeps_policy() {
    let g = GPolicied::make(20u64, Policy::owned_by("malte".to_string()));
    let doubled = g.map(|x| x * 2);
    assert_eq!(doubled.export_check_borrow(&file("kinan")), Err(PolicyError::ContextRejected));
    assert_eq!(doubled.export_check(&file("malte")), Ok(40));
}

#[test]
fn as_ref_shares_policy() {
    let g = GPolicied::make(7u64, Policy::owned_by("malte".to_string()));
    let r = g.as_ref();
    assert_eq!(r.export_check(&file("malte")), Ok(&7));
    assert_eq!(g.as_ref().export_check(&file("kinan")), Err(PolicyError::ContextRejected));
}

#[test]
fn unchecked_accessors_reach_value() {
    let mut g = GPolicied::make(5u64, Policy::owned_by("malte".to_string()));
    assert_eq!(*g.unsafe_borrow_inner(), 5);
    *g.unsafe_borrow_inner_mut() = 6;
    {
        let (v, p) = g.unsafe_borrow_decompose();
        assert_eq!(*v, 6);
        assert_eq!(p.check(&file("kinan")), Err(PolicyError::ContextRejected));
    }
    {
        let (v, p) = g.unsafe_borrow_decompose_mut();
        *v = 7;
        *p = Policy::NonePolicy;
    }
    assert_eq!(g.export_check_borrow(&file("kinan")), Ok(&7));
    let (v, p) = g.unsafe_decompose();
    assert_eq!(v, 7);
    assert_eq!(p.check(&server()), Ok(()));
    let h = GPolicied::make(9u64, Policy::owned_by("malte".to_string()));
    assert_eq!(h.unsafe_into_inner(), 9);
    let k = GPolicied::make(3u64, Policy::owned_by("malte".to_string()));
    assert_eq!(k.unsafe_export(), 3);
}

#[test]
fn map_insert_returns_previous_under_pre_merge_policy() {
    let mut m: PoliciedValHashMap<u64, String> = GPolicied::make_default(HashMap::new());
    let first = m.insert(1, GPolicied::make("a".to_string(), readers(&["malte", "livia"]))).unwrap();
    assert!(first.is_none());
    let evicted = m
        .insert(1, GPolicied::make("b".to_string(), readers(&["kinan", "livia"])))
        .unwrap()
        .unwrap();
    assert_eq!(evicted.export_check_borrow(&file("malte")), Ok(&"a".to_string()));
    let got = m.get(&1).unwrap();
    assert_eq!(got.export_check_borrow(&file("malte")), Err(PolicyError::ContextRejected));
    assert_eq!(got.export_check(&file("livia")), Ok(&"b".to_string()));
    assert!(m.get(&2).is_none());
}

#[test]
fn map_insert_of_unmergeable_policy_fails() {
    let mut m: PoliciedValHashMap<u64, u64> = GPolicied::make_default(HashMap::new());
    m.insert(1, GPolicied::make(10, Policy::owned_by("malte".to_string()))).unwrap();
    let r = m.insert(2, GPolicied::make(20, Policy::owned_by("kinan".to_string())));
    assert!(matches!(r, Err(PolicyError::UnmergeablePolicies)));
    assert!(m.get(&2).is_none());
}

#[test]
fn map_insert_kv_merges_pair_policy() {
    let mut m: PoliciedValHashMap<u64, u64> = GPolicied::make_default(HashMap::new());
    assert!(m.insert_kv(GPolicied::make((4, 40), Policy::owned_by("malte".to_string()))).unwrap().is_none());
    let prev = m.insert_kv(GPolicied::make((4, 41), Policy::NonePolicy)).unwrap().unwrap();
    assert_eq!(prev.export_check(&file("malte")), Ok(40));
    let got = m.get(&4).unwrap();
    assert_eq!(got.export_check_borrow(&file("kinan")), Err(PolicyError::ContextRejected));
    assert_eq!(got.export_check(&file("malte")), Ok(&41));
}

#[test]
fn externalize_option() {
    let none: Option<GPolicied<u64>> = None;
    let g = none.externalize_policy();
    assert_eq!(g.export_check(&server()), Ok(None));
    let some = Some(GPolicied::make(3u64, Policy::owned_by("malte".to_string())));
    let g = some.externalize_policy();
    assert_eq!(g.export_check_borrow(&server()), Err(PolicyError::ContextRejected));
    assert_eq!(g.export_check(&file("malte")), Ok(Some(3)));
}

#[test]
fn externalize_vec_merges_all() {
    let v = vec![
        GPolicied::make(1u64, readers(&["malte", "livia"])),
        GPolicied::make(2u64, Policy::NonePolicy),
        GPolicied::make(3u64, readers(&["kinan", "livia"])),
    ];
    let g = v.externalize_policy().unwrap();
    assert_eq!(g.export_check_borrow(&file("malte")), Err(PolicyError::ContextRejected));
    assert_eq!(g.export_check(&file("livia")), Ok(vec![1, 2, 3]));
    let empty: Vec<GPolicied<u64>> = Vec::new();
    assert_eq!(empty.externalize_policy().unwrap().export_check(&server()), Ok(vec![]));
    let clash = vec![
        GPolicied::make(1u64, Policy::owned_by("malte".to_string())),
        GPolicied::make(2u64, Policy::owned_by("kinan".to_string())),
    ];
    assert!(matches!(clash.externalize_policy(), Err(PolicyError::UnmergeablePolicies)));
}

#[test]
fn internalize_vec_shares_policy() {
    let g = GPolicied::make(vec![5u64, 6, 7], Policy::owned_by("malte".to_string()));
    let parts = g.internalize_policy();
    assert_eq!(parts.len(), 3);
    let mut got = Vec::new();
    for p in parts {
        assert_eq!(p.export_check_borrow(&file("kinan")), Err(PolicyError::ContextRejected));
        got.push(p.export_check(&file("malte")).unwrap());
    }
    assert_eq!(got, vec![5, 6, 7]);
}

#[test]
fn as_policied_wraps_any_value() {
    let g = 12u64.policied();
    assert_eq!(g.export_check(&server()), Ok(12));
    let h = "x".to_string().policied_with(Policy::owned_by("malte".to_string()));
    assert_eq!(h.export_check_borrow(&server()), Err(PolicyError::ContextRejected));
    assert_eq!(h.export_check(&file("malte")), Ok("x".to_string()));
}

#[test]
fn export_and_release_copies_on_success() {
    let s: PoliciedString = GPolicied::make("malte".to_string(), Policy::owned_by("malte".to_string()));
    assert_eq!(export_and_release(&file("malte"), &s), Ok("malte".to_string()));
    assert_eq!(export_and_release(&file("kinan"), &s), Err(PolicyError::ContextRejected));
}

#[test]
fn writer_frames_only_released_records() {
    let mut w = BeaverBufWriter::safe_create(file("malte"));
    let malte: PoliciedString = GPolicied::make("malte".to_string(), Policy::owned_by("malte".to_string()));
    let kinan: PoliciedString = GPolicied::make("kinan".to_string(), Policy::owned_by("kinan".to_string()));
    assert_eq!(w.safe_write_serialized(&malte), Ok(6));
    assert_eq!(w.safe_write_serialized(&kinan), Err(PolicyError::ContextRejected));
    assert_eq!(w.take_pending(), b"malte\n".to_vec());
    assert_eq!(w.take_pending(), Vec::<u8>::new());
}

#[test]
fn writer_encodes_json_records_after_check() {
    let mut w = BeaverBufWriter::safe_create(file("malte"));
    let grade = GPolicied::make(85u64, Policy::owned_by("malte".to_string()));
    assert_eq!(w.safe_write_json(&grade, |g: &u64| format!("{{\"grade\":{}}}", g)), Ok(13));
    let other = GPolicied::make(87u64, Policy::owned_by("kinan".to_string()));
    assert_eq!(
        w.safe_write_json(&other, |_: &u64| panic!("encoded a refused record")),
        Err(PolicyError::ContextRejected)
    );
    assert_eq!(w.take_pending(), b"{\"grade\":85}\n".to_vec());
}

#[test]
fn writer_counts_utf8_bytes() {
    let mut w = BeaverBufWriter::safe_create(file("x"));
    let s: PoliciedString = GPolicied::make("é".to_string(), Policy::NonePolicy);
    assert_eq!(w.safe_write_serialized(&s), Ok(3));
    assert_eq!(w.take_pending(), vec![0xc3, 0xa9, 10]);
}

#[test]
fn reader_splits_lines() {
    let mut r = BeaverBufReader::safe_create();
    assert_eq!(r.next_line(), None);
    r.feed(b"ab\ncd");
    assert_eq!(r.next_line(), Some(b"ab".to_vec()));
    assert_eq!(r.next_line(), None);
    r.feed(b"e\n\nf");
    assert_eq!(r.next_line(), Some(b"cde".to_vec()));
    assert_eq!(r.next_line(), Some(Vec::new()));
    assert_eq!(r.next_line(), None);
    assert_eq!(r.finish(), Some(b"f".to_vec()));
    assert_eq!(r.finish(), None);
}

#[test]
fn owner_policy_readers() {
    let o = OwnerPolicy::new("malte".to_string());
    assert_eq!(o.readers, vec!["malte".to_string()]);
    assert!(o.allows_reader(&"malte".to_string()));
    assert!(!o.allows_reader(&"kinan".to_string()));
    let a = OwnerPolicy { readers: vec!["a".to_string(), "b".to_string(), "c".to_string()] };
    let b = OwnerPolicy { readers: vec!["c".to_string(), "a".to_string(), "d".to_string()] };
    assert_eq!(a.common_with(&b).readers, vec!["a".to_string(), "c".to_string()]);
    assert!(a.common_with(&OwnerPolicy { readers: vec![] }).readers.is_empty());
}

#[test]
fn policy_clone_decides_alike() {
    let p = readers(&["malte", "livia"]);
    let q = p.clone();
    for c in all_contexts() {
        assert_eq!(q.check(&c), p.check(&c));
    }
}

#[test]
fn internalize_option_keeps_policy() {
    let g = GPolicied::make(Some(4u64), Policy::owned_by("malte".to_string()));
    let inner = g.internalize_policy().unwrap();
    assert_eq!(inner.export_check_borrow(&file("kinan")), Err(PolicyError::ContextRejected));
    assert_eq!(inner.export_check(&file("malte")), Ok(4));
    let empty: GPolicied<Option<u64>> = GPolicied::make_default(None);
    assert!(empty.internalize_policy().is_none());
}

#[test]
fn guarded_clone_keeps_policy() {
    let g = GPolicied::make("grade".to_string(), Policy::owned_by("malte".to_string()));
    let h = g.clone();
    assert_eq!(h.export_check_borrow(&file("kinan")), Err(PolicyError::ContextRejected));
    assert_eq!(h.export_check(&file("malte")), Ok("grade".to_string()));
    assert_eq!(g.export_check(&file("malte")), Ok("grade".to_string()));
}

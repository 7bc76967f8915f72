use qafhe_proxy::endpoint::{Endpoint, EndpointTable};
use qafhe_proxy::error::PolicyError;
use qafhe_proxy::model::Model;
use qafhe_proxy::policies::detour::DetourPolicy;
use qafhe_proxy::policies::min_latencia::MintimePolicy;
use qafhe_proxy::policies::random::RandomPolicy;
use qafhe_proxy::policies::rrobin::RrobinPolicy;
use qafhe_proxy::policies::sed::SedPolicy;
use qafhe_proxy::policies::{target_at_turn, ProxyPolicy};
use qafhe_proxy::request::{Request, TritonContext};

const LOCAL: u128 = 100;

fn model(name: &str, accuracy: u32, perf: u32) -> Model {
    Model {
        name: String::from(name),
        accuracy,
        perf,
    }
}

fn catalog() -> Vec<Model> {
    vec![model("slow", 95, 500), model("fast", 60, 20), model("mid", 80, 20)]
}

fn request(jumps: u32) -> Request {
    Request {
        jumps,
        previous_nodes: Vec::new(),
        context: TritonContext {
            accuracy: 50,
            priority: 1000,
            model: None,
        },
    }
}

fn table(ids: &[u128]) -> EndpointTable {
    let mut t = EndpointTable::new();
    for id in ids {
        t.insert(Endpoint::new(*id, format!("n{id}"), 2).unwrap());
    }
    t
}

#[test]
fn forwarded_request_stays_local_under_every_policy() {
    let t = table(&[1, 2, LOCAL, 3]);
    let req = request(1);
    assert_eq!(SedPolicy::new(catalog(), LOCAL).choose_target(&req, &t), Ok(LOCAL));
    assert_eq!(RandomPolicy::new(catalog(), LOCAL).choose_target(&req, &t), Ok(LOCAL));
    assert_eq!(RrobinPolicy::new(catalog(), LOCAL).choose_target(&req, &t), Ok(LOCAL));
    assert_eq!(MintimePolicy::new(catalog(), LOCAL).choose_target(&req, &t), Ok(LOCAL));
    assert_eq!(DetourPolicy::new(catalog(), LOCAL).choose_target(&req, &t), Ok(LOCAL));
}

#[test]
fn forwarded_request_stays_local_even_against_an_empty_table() {
    let t = EndpointTable::new();
    let req = request(3);
    assert_eq!(RandomPolicy::new(catalog(), LOCAL).choose_target(&req, &t), Ok(LOCAL));
    assert_eq!(RrobinPolicy::new(catalog(), LOCAL).choose_target(&req, &t), Ok(LOCAL));
    assert_eq!(MintimePolicy::new(catalog(), LOCAL).choose_target(&req, &t), Ok(LOCAL));
    assert_eq!(DetourPolicy::new(catalog(), LOCAL).choose_target(&req, &t), Ok(LOCAL));
}

#[test]
fn empty_table_is_no_endpoints_available() {
    let t = EndpointTable::new();
    let req = request(0);
    let expected = Err(PolicyError::NoEndpointsAvailable);
    assert_eq!(RandomPolicy::new(catalog(), LOCAL).choose_target(&req, &t), expected);
    assert_eq!(RrobinPolicy::new(catalog(), LOCAL).choose_target(&req, &t), expected);
    assert_eq!(MintimePolicy::new(catalog(), LOCAL).choose_target(&req, &t), expected);
    assert_eq!(DetourPolicy::new(catalog(), LOCAL).choose_target(&req, &t), expected);
    assert_eq!(target_at_turn(LOCAL, &req, &t, 17), expected);
}

#[test]
fn sed_always_answers_local() {
    let mut sed = SedPolicy::new(catalog(), LOCAL);
    assert_eq!(sed.choose_target(&request(0), &EndpointTable::new()), Ok(LOCAL));
    assert_eq!(sed.choose_target(&request(0), &table(&[1, 2])), Ok(LOCAL));
    assert_eq!(sed.local_uuid(), LOCAL);
    assert_eq!(sed.models().len(), 3);
}

#[test]
fn cheapest_model_rule_takes_the_first_cheapest() {
    let req = request(0);
    assert_eq!(SedPolicy::new(catalog(), LOCAL).process_locally(&req), Ok(1));
    assert_eq!(RandomPolicy::new(catalog(), LOCAL).process_locally(&req), Ok(1));
    assert_eq!(RrobinPolicy::new(catalog(), LOCAL).process_locally(&req), Ok(1));
}

#[test]
fn empty_catalog_is_model_catalog_empty_under_every_policy() {
    let req = request(0);
    let expected = Err(PolicyError::ModelCatalogEmpty);
    assert_eq!(SedPolicy::new(Vec::new(), LOCAL).process_locally(&req), expected);
    assert_eq!(RandomPolicy::new(Vec::new(), LOCAL).process_locally(&req), expected);
    assert_eq!(RrobinPolicy::new(Vec::new(), LOCAL).process_locally(&req), expected);
    assert_eq!(MintimePolicy::new(Vec::new(), LOCAL).process_locally(&req), expected);
    assert_eq!(DetourPolicy::new(Vec::new(), LOCAL).process_locally(&req), expected);
}

#[test]
fn target_at_turn_wraps_around_the_table() {
    let t = table(&[11, 22, 33]);
    let req = request(0);
    assert_eq!(target_at_turn(LOCAL, &req, &t, 0), Ok(11));
    assert_eq!(target_at_turn(LOCAL, &req, &t, 1), Ok(22));
    assert_eq!(target_at_turn(LOCAL, &req, &t, 2), Ok(33));
    assert_eq!(target_at_turn(LOCAL, &req, &t, 3), Ok(11));
    assert_eq!(target_at_turn(LOCAL, &req, &t, 100), Ok(22));
    assert_eq!(target_at_turn(LOCAL, &request(2), &t, 1), Ok(LOCAL));
}

#[test]
fn round_robin_visits_the_table_in_order() {
    let ids = [5u128, LOCAL, 7];
    let t = table(&ids);
    let mut rr = RrobinPolicy::new(catalog(), LOCAL);
    let req = request(0);
    let mut seen = Vec::new();
    for _ in 0..7 {
        seen.push(rr.choose_target(&req, &t).unwrap());
    }
    assert_eq!(seen, vec![5, LOCAL, 7, 5, LOCAL, 7, 5]);
    assert_eq!(rr.siguiente(), 7);
}

#[test]
fn round_robin_visits_each_endpoint_equally_often() {
    let ids = [1u128, 2, 3, 4];
    let t = table(&ids);
    let mut rr = RrobinPolicy::new(catalog(), LOCAL);
    let req = request(0);
    let n = 4 * 25 + 3;
    let mut counts = [0usize; 4];
    for _ in 0..n {
        let id = rr.choose_target(&req, &t).unwrap();
        counts[(id - 1) as usize] += 1;
    }
    assert_eq!(counts, [26, 26, 26, 25]);
}

#[test]
fn round_robin_turn_is_not_used_up_without_a_decision_by_turn() {
    let t = table(&[1, 2]);
    let mut rr = RrobinPolicy::new(catalog(), LOCAL);
    assert_eq!(rr.siguiente(), 0);
    assert_eq!(rr.choose_target(&request(1), &t), Ok(LOCAL));
    assert_eq!(rr.siguiente(), 0);
    assert!(rr.choose_target(&request(0), &EndpointTable::new()).is_err());
    assert_eq!(rr.siguiente(), 0);
    assert_eq!(rr.choose_target(&request(0), &t), Ok(1));
    assert_eq!(rr.siguiente(), 1);
    assert_eq!(rr.choose_target(&request(0), &t), Ok(2));
}

#[test]
fn round_robin_single_endpoint_is_always_chosen() {
    let t = table(&[9]);
    let mut rr = RrobinPolicy::new(catalog(), LOCAL);
    for _ in 0..3 {
        assert_eq!(rr.choose_target(&request(0), &t), Ok(9));
    }
}

#[test]
fn random_target_for_draw_is_the_endpoint_at_draw_modulo_size() {
    let t = table(&[11, 22, 33]);
    let p = RandomPolicy::new(catalog(), LOCAL);
    let req = request(0);
    assert_eq!(p.target_for_draw(&req, &t, 0), Ok(11));
    assert_eq!(p.target_for_draw(&req, &t, 4), Ok(22));
    assert_eq!(p.target_for_draw(&req, &t, usize::MAX), Ok([11, 22, 33][usize::MAX % 3]));
    assert_eq!(p.target_for_draw(&request(1), &t, 4), Ok(LOCAL));
    assert_eq!(
        p.target_for_draw(&req, &EndpointTable::new(), 4),
        Err(PolicyError::NoEndpointsAvailable)
    );
}

#[test]
fn random_always_answers_with_an_endpoint_of_the_table() {
    let ids = [11u128, 22, 33];
    let t = table(&ids);
    let mut p = RandomPolicy::new(catalog(), LOCAL);
    for _ in 0..200 {
        let id = p.choose_target(&request(0), &t).unwrap();
        assert!(ids.contains(&id));
    }
}

#[test]
fn random_chooses_each_endpoint_about_equally_often() {
    let ids = [0u128, 1, 2, 3];
    let t = table(&ids);
    let mut p = RandomPolicy::new(catalog(), LOCAL);
    let trials = 40_000usize;
    let mut counts = [0usize; 4];
    for _ in 0..trials {
        let id = p.choose_target(&request(0), &t).unwrap();
        counts[id as usize] += 1;
    }
    let expected = trials / ids.len();
    for c in counts {
        assert!(c > expected * 9 / 10 && c < expected * 11 / 10);
    }
}

#[test]
fn random_with_a_single_endpoint_chooses_it() {
    let t = table(&[42]);
    let mut p = RandomPolicy::new(catalog(), LOCAL);
    assert_eq!(p.choose_target(&request(0), &t), Ok(42));
}

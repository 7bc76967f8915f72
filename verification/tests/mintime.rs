use qafhe_proxy::endpoint::{Endpoint, EndpointTable};
use qafhe_proxy::error::PolicyError;
use qafhe_proxy::model::Model;
use qafhe_proxy::policies::min_latencia::{calculate_weight, MintimePolicy};
use qafhe_proxy::policies::ProxyPolicy;
use qafhe_proxy::request::{Request, TritonContext};

const LOCAL: u128 = 1;

fn endpoint(id: u128, pending: u32, outcomes: &[Option<u32>]) -> Endpoint {
    let mut ep = Endpoint::new(id, format!("n{id}"), 1).unwrap();
    for _ in 0..pending {
        ep.add_pending();
    }
    for o in outcomes {
        ep.push_result(*o);
    }
    ep
}

fn table(endpoints: Vec<Endpoint>) -> EndpointTable {
    let mut t = EndpointTable::new();
    for ep in endpoints {
        t.insert(ep);
    }
    t
}

fn request(visited: &[u128], hint: Option<&str>) -> Request {
    Request {
        jumps: 0,
        previous_nodes: visited.to_vec(),
        context: TritonContext {
            accuracy: 50,
            priority: 1000,
            model: hint.map(String::from),
        },
    }
}

fn model(name: &str, accuracy: u32, perf: u32) -> Model {
    Model {
        name: String::from(name),
        accuracy,
        perf,
    }
}

fn policy() -> MintimePolicy {
    MintimePolicy::new(
        vec![
            model("bert-large", 95, 500),
            model("bert-base", 80, 100),
            model("distil", 60, 20),
            model("tiny", 55, 20),
        ],
        LOCAL,
    )
}

#[test]
fn weight_of_an_unused_endpoint_is_zero() {
    assert_eq!(calculate_weight(&endpoint(1, 0, &[])), 0);
}

#[test]
fn weight_is_the_average_with_the_penalty_for_failures() {
    assert_eq!(calculate_weight(&endpoint(1, 0, &[Some(100)])), 100);
    assert_eq!(calculate_weight(&endpoint(1, 0, &[None])), 10_000);
    assert_eq!(calculate_weight(&endpoint(1, 0, &[Some(100), None, Some(50)])), 3383);
    assert_eq!(calculate_weight(&endpoint(1, 0, &[Some(1), Some(2)])), 1);
}

#[test]
fn weight_counts_only_the_last_five_outcomes() {
    let ep = endpoint(1, 0, &[None, None, Some(10), Some(20), Some(30), Some(40), Some(50)]);
    assert_eq!(calculate_weight(&ep), 30);
}

#[test]
fn weight_of_the_longest_durations_does_not_overflow() {
    let ep = endpoint(1, 0, &[Some(u32::MAX); 5]);
    assert_eq!(calculate_weight(&ep), u32::MAX);
}

#[test]
fn fresh_endpoint_wins_over_a_seasoned_one() {
    let t = table(vec![endpoint(10, 0, &[Some(1)]), endpoint(20, 0, &[])]);
    assert_eq!(policy().choose_target(&request(&[], None), &t), Ok(20));
    let t = table(vec![endpoint(20, 0, &[]), endpoint(10, 0, &[Some(1)])]);
    assert_eq!(policy().choose_target(&request(&[], None), &t), Ok(20));
}

#[test]
fn lowest_average_wins_among_seasoned_endpoints() {
    let t = table(vec![
        endpoint(10, 0, &[Some(300), Some(100)]),
        endpoint(20, 0, &[Some(150)]),
        endpoint(30, 0, &[Some(100), None]),
    ]);
    assert_eq!(policy().choose_target(&request(&[], None), &t), Ok(20));
}

#[test]
fn ties_go_to_the_endpoint_that_comes_first() {
    let t = table(vec![
        endpoint(10, 0, &[Some(200)]),
        endpoint(20, 0, &[Some(100), Some(100)]),
        endpoint(30, 0, &[Some(100)]),
    ]);
    assert_eq!(policy().choose_target(&request(&[], None), &t), Ok(20));
}

#[test]
fn visited_endpoints_are_never_chosen() {
    let t = table(vec![
        endpoint(10, 0, &[]),
        endpoint(20, 0, &[Some(500)]),
        endpoint(30, 0, &[Some(900)]),
    ]);
    assert_eq!(policy().choose_target(&request(&[10], None), &t), Ok(20));
    assert_eq!(policy().choose_target(&request(&[20, 10], None), &t), Ok(30));
}

#[test]
fn busy_endpoints_are_never_chosen() {
    let t = table(vec![
        endpoint(10, 1, &[]),
        endpoint(20, 0, &[Some(500)]),
        endpoint(30, 2, &[Some(1)]),
    ]);
    assert_eq!(policy().choose_target(&request(&[], None), &t), Ok(20));
}

#[test]
fn no_eligible_endpoint_is_an_error() {
    let t = table(vec![endpoint(10, 1, &[]), endpoint(20, 0, &[])]);
    assert_eq!(
        policy().choose_target(&request(&[20], None), &t),
        Err(PolicyError::NoEligiblePeer)
    );
}

#[test]
fn busy_endpoint_is_chosen_again_once_it_is_idle() {
    let mut ep = endpoint(10, 1, &[]);
    let t = table(vec![endpoint(10, 1, &[]), endpoint(20, 0, &[Some(5)])]);
    assert_eq!(policy().choose_target(&request(&[], None), &t), Ok(20));
    ep.remove_pending();
    let t = table(vec![ep, endpoint(20, 0, &[Some(5)])]);
    assert_eq!(policy().choose_target(&request(&[], None), &t), Ok(10));
}

#[test]
fn single_eligible_endpoint_is_chosen() {
    let t = table(vec![endpoint(LOCAL, 0, &[None, None])]);
    assert_eq!(policy().choose_target(&request(&[], None), &t), Ok(LOCAL));
}

#[test]
fn hint_picks_the_first_model_whose_name_contains_it() {
    let p = policy();
    assert_eq!(p.process_locally(&request(&[], Some("bert"))), Ok(0));
    assert_eq!(p.process_locally(&request(&[], Some("base"))), Ok(1));
    assert_eq!(p.hinted_model(&request(&[], Some("base"))), Some(1));
    assert_eq!(p.process_locally(&request(&[], Some("tin"))), Ok(3));
}

#[test]
fn hint_that_matches_nothing_falls_back_to_the_cheapest_model() {
    let p = policy();
    assert_eq!(p.hinted_model(&request(&[], Some("gpt"))), None);
    assert_eq!(p.process_locally(&request(&[], Some("gpt"))), Ok(2));
}

#[test]
fn no_hint_falls_back_to_the_cheapest_model() {
    let p = policy();
    assert_eq!(p.hinted_model(&request(&[], None)), None);
    assert_eq!(p.process_locally(&request(&[], None)), Ok(2));
}

#[test]
fn request_knows_the_nodes_it_has_visited() {
    let req = request(&[3, 5], None);
    assert!(req.has_visited(3));
    assert!(req.has_visited(5));
    assert!(!req.has_visited(4));
    assert!(!request(&[], None).has_visited(0));
}

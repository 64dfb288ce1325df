use k8s_node_server::handlers::{deliveries, reply_to, CloseReason, PollPass, TickAction, WsEvent, WsReply, WsServer};

#[test]
fn connect_and_disconnect() {
    let mut s = WsServer::new_with_dummy_data();
    assert!(s.sessions().is_empty());
    s.connect(1);
    s.connect(2);
    s.connect(3);
    s.connect(2);
    assert_eq!(s.sessions(), &vec![1, 2, 3, 2]);
    s.disconnect(2);
    assert_eq!(s.sessions(), &vec![1, 3]);
    s.disconnect(9);
    assert_eq!(s.sessions(), &vec![1, 3]);
    s.connect(4);
    s.disconnect(4);
    assert_eq!(s.sessions(), &vec![1, 3]);
}

#[test]
fn tick_is_idle_without_sessions() {
    let s = WsServer::new(vec!["a".to_string()]);
    assert!(matches!(s.tick(), TickAction::Idle));
    let d = WsServer::new_with_dummy_data();
    assert!(matches!(d.tick(), TickAction::Idle));
}

#[test]
fn tick_sends_samples_or_polls() {
    let mut d = WsServer::new_with_dummy_data();
    d.connect(7);
    match d.tick() {
        TickAction::SendSamples { sessions } => assert_eq!(sessions, vec![7]),
        _ => panic!("expected samples"),
    }
    let mut p = WsServer::new(vec!["prod".to_string(), "dev".to_string()]);
    p.connect(1);
    p.connect(2);
    match p.tick() {
        TickAction::Poll { clusters, sessions } => {
            assert_eq!(clusters, vec!["prod".to_string(), "dev".to_string()]);
            assert_eq!(sessions, vec![1, 2]);
        }
        _ => panic!("expected poll"),
    }
}

#[test]
fn deliveries_go_cluster_by_cluster() {
    assert_eq!(deliveries(2, &vec![5, 6]), vec![(0, 5), (0, 6), (1, 5), (1, 6)]);
    assert_eq!(deliveries(0, &vec![5]), vec![]);
    assert_eq!(deliveries(3, &vec![]), vec![]);
}

#[test]
fn replies_to_frames() {
    assert!(matches!(reply_to(WsEvent::Ping(vec![1, 2])), WsReply::Pong(b) if b == vec![1, 2]));
    match reply_to(WsEvent::Close(Some(CloseReason { code: 1000, description: Some("bye".to_string()) }))) {
        WsReply::CloseAndStop(Some(r)) => {
            assert_eq!(r.code, 1000);
            assert_eq!(r.description.as_deref(), Some("bye"));
        }
        _ => panic!("expected close"),
    }
    assert!(matches!(reply_to(WsEvent::Close(None)), WsReply::CloseAndStop(None)));
    assert!(matches!(reply_to(WsEvent::Error), WsReply::Stop));
    assert!(matches!(reply_to(WsEvent::Other), WsReply::Ignore));
}

#[test]
fn clusters_are_added_once() {
    let mut s = WsServer::new(vec![]);
    s.connect(1);
    s.add_cluster("prod".to_string());
    s.add_cluster("dev".to_string());
    s.add_cluster("prod".to_string());
    match s.tick() {
        TickAction::Poll { clusters, sessions } => {
            assert_eq!(clusters, vec!["prod".to_string(), "dev".to_string()]);
            assert_eq!(sessions, vec![1]);
        }
        _ => panic!("expected poll"),
    }
}

#[test]
fn new_keeps_each_cluster_name_once() {
    let names = vec!["prod", "dev", "prod", "qa", "dev"].into_iter().map(String::from).collect();
    let mut s = WsServer::new(names);
    s.connect(1);
    match s.tick() {
        TickAction::Poll { clusters, sessions } => {
            assert_eq!(clusters, vec!["prod".to_string(), "dev".to_string(), "qa".to_string()]);
            assert_eq!(sessions, vec![1]);
        }
        _ => panic!("expected poll"),
    }
}

#[test]
fn poll_pass_takes_each_cluster_in_order() {
    let mut pass = PollPass::new(vec!["prod".to_string(), "dev".to_string()], vec![3, 1]);
    assert_eq!(pass.next_cluster(), Some("prod".to_string()));
    assert_eq!(pass.recipients(true), vec![3, 1]);
    assert_eq!(pass.next_cluster(), Some("dev".to_string()));
    assert_eq!(pass.recipients(false), Vec::<u64>::new());
    assert_eq!(pass.next_cluster(), None);
    assert_eq!(pass.next_cluster(), None);
    let mut empty = PollPass::new(vec![], vec![1]);
    assert_eq!(empty.next_cluster(), None);
}

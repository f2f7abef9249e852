use hydro_cli::grammar::{Aggregation, AggregationType, Ident, TargetExpr, ValueExpr};
use hydro_cli::handshake::{
    control_step, is_stop_line, merge_port_table, name_listed, ready_line, start_payload,
    ControlAction, Phase, ProtocolError, ServerOrBound,
};
use hydro_cli::process::{exit_code_of, stdin_frame};

#[test]
fn start_line_payload() {
    assert_eq!(
        start_payload("start: {\"p\":{\"TcpPort\":\"1.2.3.4:9\"}}\n"),
        Some("{\"p\":{\"TcpPort\":\"1.2.3.4:9\"}}".to_string())
    );
    assert_eq!(start_payload("begin: {}"), None);
    assert_eq!(start_payload("start:{}"), None);
}

#[test]
fn ready_line_prefix() {
    assert_eq!(ready_line("{\"p\":{\"UnixSocket\":\"/tmp/s\"}}"), "ready: {\"p\":{\"UnixSocket\":\"/tmp/s\"}}");
}

#[test]
fn stop_line() {
    assert!(is_stop_line("stop\n"));
    assert!(is_stop_line("stop"));
    assert!(is_stop_line("stop\r\n"));
    assert!(!is_stop_line("  stop\t"));
    assert!(!is_stop_line("stopped\n"));
    assert!(!is_stop_line("start: {}"));
}

#[test]
fn merged_table_dials_given_addresses() {
    let bound = vec![("p".to_string(), 7u8), ("q".to_string(), 8u8)];
    let dial = vec![("p".to_string(), "1.2.3.4:9".to_string())];
    let table = merge_port_table(bound, dial);
    assert_eq!(table.len(), 2);
    assert_eq!(table[0].0, "p");
    assert!(matches!(&table[0].1, ServerOrBound::Server(a) if a == "1.2.3.4:9"));
    assert_eq!(table[1].0, "q");
    assert!(matches!(table[1].1, ServerOrBound::Bound(8)));
}

#[test]
fn names_listed() {
    let entries = vec![("a".to_string(), 1), ("b".to_string(), 2)];
    assert!(name_listed(&entries, &"b".to_string()));
    assert!(!name_listed(&entries, &"c".to_string()));
}

#[test]
fn signal_is_reported_as_exit_code() {
    assert_eq!(exit_code_of(None, Some(9)), Some(9));
    assert_eq!(exit_code_of(Some(0), None), Some(0));
    assert_eq!(exit_code_of(Some(1), Some(9)), Some(1));
    assert_eq!(exit_code_of(None, None), None);
}

#[test]
fn stdin_frame_ends_line() {
    assert_eq!(stdin_frame("hello"), "hello\n");
    assert_eq!(stdin_frame(""), "\n");
}

fn ident(n: &str) -> Ident {
    Ident { name: n.to_string() }
}

#[test]
fn value_expr_idents() {
    let e = ValueExpr::Add(
        Box::new(ValueExpr::Ident(ident("a"))),
        Box::new(ValueExpr::Sub(
            Box::new(ValueExpr::Integer(3)),
            Box::new(ValueExpr::Ident(ident("b"))),
        )),
    );
    let names: Vec<&str> = e.idents().iter().map(|i| i.name.as_str()).collect();
    assert_eq!(names, vec!["a", "b"]);
    assert!(ValueExpr::Integer(1).idents().is_empty());
}

#[test]
fn target_expr_idents() {
    let agg = TargetExpr::Aggregation(Aggregation { tpe: AggregationType::Max, ident: ident("x") });
    assert_eq!(agg.idents().len(), 1);
    assert_eq!(agg.idents()[0].name, "x");
    let expr = TargetExpr::Expr(ValueExpr::Ident(ident("y")));
    assert_eq!(expr.idents()[0].name, "y");
}

#[test]
fn handshake_phases_in_order() {
    match control_step(Phase::AwaitBindConfig, " {\"p\":\"UnixSocket\"}\n") {
        Ok((Phase::AwaitStart, ControlAction::Bind(j))) => assert_eq!(j, "{\"p\":\"UnixSocket\"}"),
        other => panic!("unexpected {:?}", other),
    }
    match control_step(Phase::AwaitStart, "start: {\"p\":{\"TcpPort\":\"1.2.3.4:9\"}}\n") {
        Ok((Phase::Running, ControlAction::Connect(j))) => {
            assert_eq!(j, "{\"p\":{\"TcpPort\":\"1.2.3.4:9\"}}")
        }
        other => panic!("unexpected {:?}", other),
    }
    assert!(matches!(
        control_step(Phase::Running, "stop\n"),
        Ok((Phase::Stopped, ControlAction::Stop))
    ));
}

#[test]
fn handshake_protocol_violations() {
    assert!(matches!(
        control_step(Phase::AwaitStart, "go\n"),
        Err(ProtocolError::ExpectedStart)
    ));
    assert!(matches!(
        control_step(Phase::Running, "continue\n"),
        Err(ProtocolError::ExpectedStop)
    ));
    assert!(matches!(
        control_step(Phase::Stopped, "stop\n"),
        Err(ProtocolError::AfterStop)
    ));
}

use std::sync::mpsc::{channel, Receiver};

use fx_core::engine::{AdmitOutcome, Engine, TickOutcome};
use fx_core::params::SamplingParams;
use fx_core::request::{Request, ResponseSink};
use fx_core::response::{Response, StopReason};
use fx_core::stub::EchoPipeline;

fn greedy_params(top_k: Option<u32>, top_p_bits: Option<u64>, stop: Option<Vec<u32>>) -> SamplingParams {
    SamplingParams {
        temperature_bits: 0,
        top_k,
        top_p_bits,
        top_n_logprobs: 0,
        repeat_penalty_bits: 1.0f32.to_bits(),
        stop_toks: stop,
    }
}

fn submit(engine: &mut Engine<EchoPipeline>, prompt: &str, params: SamplingParams) -> (AdmitOutcome, Receiver<Response>) {
    let (tx, rx) = channel();
    let (outcome, _log) = engine.add_request(Request {
        prompt: prompt.to_string(),
        sampling_params: params,
        response: ResponseSink::new(tx),
    });
    (outcome, rx)
}

fn drain(rx: &Receiver<Response>) -> Vec<Response> {
    rx.try_iter().collect()
}

fn token_ids(msgs: &[Response]) -> Vec<u32> {
    msgs.iter()
        .filter_map(|m| match m {
            Response::Token { id, .. } => Some(*id),
            _ => None,
        })
        .collect()
}

fn terminal_count(msgs: &[Response]) -> usize {
    msgs.iter()
        .filter(|m| matches!(m, Response::Done { .. } | Response::Error { .. }))
        .count()
}

#[test]
fn greedy_completion_runs_to_max_len() {
    let mut engine = Engine::new(EchoPipeline::new(), 10);
    let (outcome, rx) = submit(&mut engine, "123", greedy_params(Some(1), None, None));
    assert_eq!(outcome, AdmitOutcome::Admitted);

    let mut steps = 0;
    while engine.has_eligible() {
        assert!(matches!(engine.tick().0, TickOutcome::Ran(_)));
        steps += 1;
        assert!(steps <= 20);
    }
    assert_eq!(steps, 7);

    let msgs = drain(&rx);
    // prompt sum 6; step s emits (6 + s) mod 16
    assert_eq!(token_ids(&msgs), vec![7, 8, 9, 10, 11, 12, 13]);
    assert_eq!(terminal_count(&msgs), 1);
    match msgs.last().unwrap() {
        Response::Done { reason, generated_ids, .. } => {
            assert_eq!(*reason, StopReason::MaxLen);
            assert_eq!(*generated_ids, vec![7, 8, 9, 10, 11, 12, 13]);
        }
        other => panic!("expected a Done terminal, got {:?}", terminal_of(other)),
    }
}

fn terminal_of(r: &Response) -> &'static str {
    match r {
        Response::Token { .. } => "Token",
        Response::Done { .. } => "Done",
        Response::Error { .. } => "Error",
    }
}

#[test]
fn eos_token_terminates_after_one_step() {
    let mut engine = Engine::new(EchoPipeline::new(), 10);
    let (outcome, rx) = submit(&mut engine, "e", greedy_params(Some(1), None, None));
    assert_eq!(outcome, AdmitOutcome::Admitted);

    assert!(matches!(engine.tick().0, TickOutcome::Ran(1)));
    assert!(!engine.has_eligible());

    let msgs = drain(&rx);
    assert_eq!(msgs.len(), 2);
    assert_eq!(token_ids(&msgs), vec![15]);
    match &msgs[0] {
        Response::Token { text, .. } => assert_eq!(text, "f"),
        other => panic!("expected a Token first, got {:?}", terminal_of(other)),
    }
    match &msgs[1] {
        Response::Done { reason, full_text, generated_ids } => {
            assert_eq!(*reason, StopReason::EosToken);
            assert_eq!(*generated_ids, vec![15]);
            assert_eq!(full_text, "f");
        }
        other => panic!("expected a Done terminal, got {:?}", terminal_of(other)),
    }
}

#[test]
fn stop_token_terminates() {
    let mut engine = Engine::new(EchoPipeline::new(), 10);
    let (outcome, rx) = submit(&mut engine, "0", greedy_params(Some(1), None, Some(vec![2])));
    assert_eq!(outcome, AdmitOutcome::Admitted);

    assert!(matches!(engine.tick().0, TickOutcome::Ran(1)));
    assert!(matches!(engine.tick().0, TickOutcome::Ran(1)));
    assert!(!engine.has_eligible());

    let msgs = drain(&rx);
    assert_eq!(token_ids(&msgs), vec![1, 2]);
    assert_eq!(terminal_count(&msgs), 1);
    match msgs.last().unwrap() {
        Response::Done { reason, .. } => assert_eq!(*reason, StopReason::StopToken),
        other => panic!("expected a Done terminal, got {:?}", terminal_of(other)),
    }
}

#[test]
fn both_filters_set_is_rejected_without_a_sequence() {
    let mut engine = Engine::new(EchoPipeline::new(), 10);
    let (outcome, rx) = submit(
        &mut engine,
        "123",
        greedy_params(Some(5), Some(0.9f64.to_bits()), None),
    );
    assert_eq!(outcome, AdmitOutcome::Rejected);
    assert!(!engine.has_eligible());

    let msgs = drain(&rx);
    assert_eq!(msgs.len(), 1);
    assert!(matches!(msgs[0], Response::Error { .. }));
}

#[test]
fn neither_filter_set_is_rejected_without_a_sequence() {
    let mut engine = Engine::new(EchoPipeline::new(), 10);
    let (outcome, rx) = submit(&mut engine, "123", greedy_params(None, None, None));
    assert_eq!(outcome, AdmitOutcome::Rejected);
    assert!(!engine.has_eligible());

    let msgs = drain(&rx);
    assert_eq!(msgs.len(), 1);
    assert!(matches!(msgs[0], Response::Error { .. }));
}

#[test]
fn dropped_sink_cancels_the_sequence() {
    let mut engine = Engine::new(EchoPipeline::new(), 100);
    let (outcome, rx) = submit(&mut engine, "12", greedy_params(Some(1), None, None));
    assert_eq!(outcome, AdmitOutcome::Admitted);

    assert!(matches!(engine.tick().0, TickOutcome::Ran(1)));
    assert_eq!(drain(&rx).len(), 1);
    drop(rx);

    // The closed sink is detected at the next emit; the sequence leaves
    // the queue and later ticks have nothing to run.
    assert!(matches!(engine.tick().0, TickOutcome::Ran(1)));
    assert!(!engine.has_eligible());
    assert_eq!(engine.tick().0, TickOutcome::Idle);
}

#[test]
fn two_sequences_batch_in_admission_order() {
    let mut engine = Engine::new(EchoPipeline::new(), 100);
    let (o1, rx1) = submit(&mut engine, "11", greedy_params(Some(1), None, None));
    let (o2, rx2) = submit(&mut engine, "222", greedy_params(Some(1), None, None));
    assert_eq!(o1, AdmitOutcome::Admitted);
    assert_eq!(o2, AdmitOutcome::Admitted);

    assert!(matches!(engine.tick().0, TickOutcome::Ran(2)));

    // prompt sums 2 and 6; step 1 emits (sum + 1) mod 16
    assert_eq!(token_ids(&drain(&rx1)), vec![3]);
    assert_eq!(token_ids(&drain(&rx2)), vec![7]);
}

#[test]
fn empty_queue_ticks_idle_without_work() {
    let mut engine = Engine::new(EchoPipeline::new(), 10);
    assert_eq!(engine.tick().0, TickOutcome::Idle);
    assert_eq!(engine.tick().0, TickOutcome::Idle);
}

#[test]
fn single_token_prompt_ingests_and_decodes() {
    let mut engine = Engine::new(EchoPipeline::new(), 10);
    let (outcome, rx) = submit(&mut engine, "1", greedy_params(Some(1), None, None));
    assert_eq!(outcome, AdmitOutcome::Admitted);
    assert_eq!(engine.scheduler.queue[0].gen_idx, 0);
    assert!(matches!(engine.tick().0, TickOutcome::Ran(1)));
    // prompt sum 1; the prompt-ingest step emits (1 + 1) mod 16
    assert_eq!(token_ids(&drain(&rx)), vec![2]);
    assert!(engine.has_eligible());
    assert_eq!(engine.scheduler.queue[0].gen_idx, 1);
    assert_eq!(engine.scheduler.queue[0].tokens, vec![1, 2]);
}

#[test]
fn history_grows_one_token_per_tick() {
    let mut engine = Engine::new(EchoPipeline::new(), 100);
    let (outcome, rx) = submit(&mut engine, "123", greedy_params(Some(1), None, None));
    assert_eq!(outcome, AdmitOutcome::Admitted);
    for n in 1..=4usize {
        assert!(matches!(engine.tick().0, TickOutcome::Ran(1)));
        let seq = &engine.scheduler.queue[0];
        assert_eq!(seq.gen_idx, n);
        assert_eq!(seq.tokens.len(), 3 + n);
        // every layer's KV slot holds the same number of cached positions
        let rows: Vec<usize> = seq.kv.iter().map(|s| s.as_ref().unwrap().rows).collect();
        assert_eq!(rows.len(), 2);
        assert_eq!(rows[0], rows[1]);
    }
    assert_eq!(drain(&rx).len(), 4);
}

#[test]
fn greedy_decoding_is_deterministic_across_runs() {
    let mut collected: Vec<Vec<u32>> = Vec::new();
    for _ in 0..2 {
        let mut engine = Engine::new(EchoPipeline::new(), 12);
        let (outcome, rx) = submit(&mut engine, "45", greedy_params(Some(1), None, None));
        assert_eq!(outcome, AdmitOutcome::Admitted);
        while engine.has_eligible() {
            let _ = engine.tick();
        }
        collected.push(token_ids(&drain(&rx)));
    }
    assert_eq!(collected[0], collected[1]);
    assert!(!collected[0].is_empty());
}

#[test]
fn rejected_prompt_gets_a_single_error() {
    let mut engine = Engine::new(EchoPipeline::new(), 10);
    let (outcome, rx) = submit(&mut engine, "xyz!", greedy_params(Some(1), None, None));
    assert_eq!(outcome, AdmitOutcome::Rejected);
    let msgs = drain(&rx);
    assert_eq!(msgs.len(), 1);
    assert!(matches!(msgs[0], Response::Error { .. }));
}

#[test]
fn empty_prompt_is_rejected() {
    let mut engine = Engine::new(EchoPipeline::new(), 10);
    let (outcome, rx) = submit(&mut engine, "", greedy_params(Some(1), None, None));
    assert_eq!(outcome, AdmitOutcome::Rejected);
    let msgs = drain(&rx);
    assert_eq!(msgs.len(), 1);
    assert!(matches!(msgs[0], Response::Error { .. }));
}

#[test]
fn admit_sequence_queues_the_given_history() {
    let mut engine = Engine::new(EchoPipeline::new(), 10);
    let (tx, _rx) = channel();
    let (out, _) =
        engine.admit_sequence(vec![1, 2], greedy_params(Some(1), None, None), ResponseSink::new(tx));
    assert_eq!(out, AdmitOutcome::Admitted);
    assert_eq!(engine.scheduler.queue[0].tokens, vec![1, 2]);
    assert_eq!(engine.scheduler.queue[0].prompt_len, 2);

    let (tx2, rx2) = channel();
    let (out2, _) =
        engine.admit_sequence(vec![3], greedy_params(None, None, None), ResponseSink::new(tx2));
    assert_eq!(out2, AdmitOutcome::Rejected);
    assert_eq!(engine.scheduler.queue.len(), 1);
    assert!(matches!(rx2.try_recv().unwrap(), fx_core::response::Response::Error { .. }));
}

#[test]
fn serv_sender_feeds_the_request_channel() {
    let (tx, rx) = channel::<Request>();
    let serv = fx_core::FxServ::new(tx);
    let caller = serv.get_sender();
    let (resp_tx, _resp_rx) = channel();
    caller
        .send(Request {
            prompt: "1".to_string(),
            sampling_params: greedy_params(Some(1), None, None),
            response: ResponseSink::new(resp_tx),
        })
        .unwrap();
    let got = rx.recv().unwrap();
    assert_eq!(got.prompt, "1");
}

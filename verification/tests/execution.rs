//! The plugin contract, the registry, and the execution orchestrator, driven
//! with synthetic probe outcomes.

use pocsuite_rs::orchestrator::ExecutionOrchestrator;
use pocsuite_rs::poc_core::{Poc, PocConfig, PocError, ProbeOutcome, ProbeRequest};
use pocsuite_rs::pocs::redis::RedisPoc;
use pocsuite_rs::pocs::{ExamplePoc, PocManager, PocRegistry, RegisteredPoc};

fn base_config() -> PocConfig {
    PocConfig {
        target: String::new(),
        timeout: 30,
        headers: Vec::new(),
        verify: true,
        exploit: false,
    }
}

#[test]
fn plugins_report_their_names_and_descriptions() {
    let example = ExamplePoc::new(30);
    assert_eq!(example.get_name(), "Example Vulnerability");
    assert_eq!(
        example.get_description(),
        "This is an example vulnerability for demonstration purposes."
    );
    let redis = RedisPoc::new();
    assert_eq!(redis.get_name(), "Redis Unauthorized Access Vulnerability");
}

#[test]
fn registry_registers_looks_up_and_lists() {
    let mut registry = PocRegistry::new();
    registry.register(RegisteredPoc::Example(ExamplePoc::new(30)));
    registry.register(RegisteredPoc::Redis(RedisPoc::new()));
    let names = registry.list();
    assert_eq!(
        names,
        vec![
            "Example Vulnerability".to_string(),
            "Redis Unauthorized Access Vulnerability".to_string()
        ]
    );
    let found = registry.get("Example Vulnerability").expect("must be registered");
    assert_eq!(found.get_name(), "Example Vulnerability");
    assert!(registry.get("missing").is_none());
}

#[test]
fn registering_under_the_same_name_replaces() {
    let mut registry = PocRegistry::new();
    registry.register(RegisteredPoc::Example(ExamplePoc::new(30)));
    registry.register(RegisteredPoc::Example(ExamplePoc::new(60)));
    assert_eq!(registry.list().len(), 1);
}

#[test]
fn verify_run_produces_one_result_per_target_in_order() {
    let mut registry = PocRegistry::new();
    registry.register(RegisteredPoc::Example(ExamplePoc::new(30)));
    let orchestrator = ExecutionOrchestrator::new(registry);
    let mut run = orchestrator
        .start_run(
            "Example Vulnerability",
            "http://a.test, http://b.test ,http://c.test",
            true,
            false,
            &base_config(),
        )
        .unwrap();
    // first target: a success response
    match run.next_request() {
        Some(ProbeRequest::HttpGet { url, timeout_secs }) => {
            assert_eq!(url, "http://a.test");
            assert_eq!(timeout_secs, 30);
        },
        _ => panic!("expected an HTTP probe"),
    }
    run.feed(ProbeOutcome::HttpResponse { code: 200, text: "200 OK".to_string() });
    // second target: a transport failure, synthesized into a failure row
    run.feed(ProbeOutcome::HttpFailure { detail: "connection refused".to_string() });
    // third target: a non-success response
    run.feed(ProbeOutcome::HttpResponse { code: 404, text: "404 Not Found".to_string() });
    assert!(run.is_finished());
    assert_eq!(run.next_request(), None);
    let results = run.into_results();
    assert_eq!(results.len(), 3);
    assert_eq!(results[0].target, "http://a.test");
    assert_eq!(results[1].target, "http://b.test");
    assert_eq!(results[2].target, "http://c.test");
    assert!(results[0].success);
    assert_eq!(results[0].name, "Example Vulnerability");
    assert_eq!(
        results[0].details,
        Some("响应状态: 200 OK, CVE编号: CVE-2023-XXXXX".to_string())
    );
    assert!(!results[1].success);
    assert_eq!(
        results[1].details,
        Some("检测失败: HTTP request error: connection refused".to_string())
    );
    assert!(!results[2].success);
}

#[test]
fn failed_verification_blocks_the_exploit_probe() {
    let mut registry = PocRegistry::new();
    registry.register(RegisteredPoc::Example(ExamplePoc::new(30)));
    let orchestrator = ExecutionOrchestrator::new(registry);
    let mut run = orchestrator
        .start_run("Example Vulnerability", "http://a.test", false, true, &base_config())
        .unwrap();
    // the exploitation unit starts with a verification probe
    assert!(matches!(run.next_request(), Some(ProbeRequest::HttpGet { .. })));
    // the verification concludes without success: no exploit probe may follow
    run.feed(ProbeOutcome::HttpResponse { code: 500, text: "500 Internal".to_string() });
    assert!(run.is_finished());
    assert_eq!(run.next_request(), None);
    let results = run.into_results();
    assert_eq!(results.len(), 1);
    assert!(!results[0].success);
    assert_eq!(results[0].target, "http://a.test");
    assert_eq!(
        results[0].details,
        Some("利用失败: POC execution error: 目标不存在漏洞".to_string())
    );
}

#[test]
fn redis_exploitation_reverifies_then_writes() {
    let mut registry = PocRegistry::new();
    registry.register(RegisteredPoc::Redis(RedisPoc::new()));
    let orchestrator = ExecutionOrchestrator::new(registry);
    let mut run = orchestrator
        .start_run(
            "Redis Unauthorized Access Vulnerability",
            "redis://10.0.0.5",
            false,
            true,
            &base_config(),
        )
        .unwrap();
    match run.next_request() {
        Some(ProbeRequest::RedisInfo { target }) => assert_eq!(target, "redis://10.0.0.5"),
        _ => panic!("expected the verification probe"),
    }
    run.feed(ProbeOutcome::RedisAccess);
    match run.next_request() {
        Some(ProbeRequest::RedisSet { target, key, value }) => {
            assert_eq!(target, "redis://10.0.0.5");
            assert_eq!(key, "pocsuite_test_key");
            assert_eq!(value, "pocsuite_test_value");
        },
        _ => panic!("expected the exploit probe"),
    }
    run.feed(ProbeOutcome::RedisWrite);
    assert!(run.is_finished());
    let results = run.into_results();
    assert_eq!(results.len(), 1);
    assert!(results[0].success);
    assert_eq!(
        results[0].details,
        Some("成功写入测试数据: pocsuite_test_key = pocsuite_test_value".to_string())
    );
}

#[test]
fn redis_verification_maps_each_failure_stage() {
    let mut registry = PocRegistry::new();
    registry.register(RegisteredPoc::Redis(RedisPoc::new()));
    let orchestrator = ExecutionOrchestrator::new(registry);
    let mut run = orchestrator
        .start_run(
            "Redis Unauthorized Access Vulnerability",
            "redis://x,redis://y,redis://z",
            true,
            false,
            &base_config(),
        )
        .unwrap();
    run.feed(ProbeOutcome::RedisClientFailure { detail: "bad url".to_string() });
    run.feed(ProbeOutcome::RedisSessionFailure { detail: "refused".to_string() });
    run.feed(ProbeOutcome::RedisCommandFailure { detail: "NOAUTH".to_string() });
    let results = run.into_results();
    assert_eq!(results.len(), 3);
    assert_eq!(
        results[0].details,
        Some(
            "检测失败: POC execution error: Failed to connect to Redis: bad url".to_string()
        )
    );
    assert_eq!(
        results[1].details,
        Some(
            "检测失败: POC execution error: Failed to establish connection: refused".to_string()
        )
    );
    assert_eq!(
        results[2].details,
        Some("检测失败: POC execution error: Failed to execute command: NOAUTH".to_string())
    );
}

#[test]
fn both_modes_produce_two_results_per_target() {
    let mut registry = PocRegistry::new();
    registry.register(RegisteredPoc::Redis(RedisPoc::new()));
    let orchestrator = ExecutionOrchestrator::new(registry);
    let mut run = orchestrator
        .start_run(
            "Redis Unauthorized Access Vulnerability",
            "redis://a",
            true,
            true,
            &base_config(),
        )
        .unwrap();
    // the verification unit
    run.feed(ProbeOutcome::RedisAccess);
    // the exploitation unit re-verifies, then writes
    run.feed(ProbeOutcome::RedisAccess);
    run.feed(ProbeOutcome::RedisWrite);
    let results = run.into_results();
    assert_eq!(results.len(), 2);
    assert!(results[0].success && results[1].success);
    assert_eq!(results[0].details, Some("目标Redis服务存在未授权访问漏洞".to_string()));
}

#[test]
fn a_missing_plugin_aborts_before_any_target() {
    let orchestrator = ExecutionOrchestrator::new(PocRegistry::new());
    match orchestrator.start_run("nope", "http://a.test", true, false, &base_config()) {
        Err(PocError::ExecutionError(m)) => assert_eq!(m, "POC nope not found"),
        _ => panic!("expected a missing-plugin error"),
    }
}

#[test]
fn the_example_exploit_declines() {
    let mut registry = PocRegistry::new();
    registry.register(RegisteredPoc::Example(ExamplePoc::new(30)));
    let orchestrator = ExecutionOrchestrator::new(registry);
    let mut run = orchestrator
        .start_run("Example Vulnerability", "http://a.test", false, true, &base_config())
        .unwrap();
    run.feed(ProbeOutcome::HttpResponse { code: 204, text: "204 No Content".to_string() });
    assert!(run.is_finished());
    let results = run.into_results();
    assert_eq!(results.len(), 1);
    assert!(!results[0].success);
    assert_eq!(
        results[0].details,
        Some("利用失败: POC execution error: 漏洞利用功能尚未实现".to_string())
    );
}

#[test]
fn manager_lists_searches_and_never_finds() {
    let manager = PocManager::new();
    let rows = manager.list();
    assert_eq!(rows.len(), 2);
    assert_eq!(rows[0].name, "example");
    assert_eq!(rows[0].vuln_type, "未知");
    assert_eq!(rows[0].description, "暂无描述");
    assert_eq!(rows[1].name, "redis");
    let hits = manager.search("red");
    assert_eq!(hits.len(), 1);
    assert_eq!(hits[0].name, "redis");
    assert_eq!(manager.search("nothing").len(), 0);
    match manager.get_poc("redis") {
        Err(m) => assert_eq!(m, "POC redis not found"),
        Ok(_) => panic!("the manager's registry is never populated"),
    }
}

#[test]
fn poc_error_messages_render_like_the_error_type() {
    assert_eq!(
        PocError::RequestError("boom".to_string()).message(),
        "HTTP request error: boom"
    );
    assert_eq!(PocError::UrlError("bad".to_string()).message(), "Invalid URL: bad");
    assert_eq!(
        PocError::ExecutionError("why".to_string()).message(),
        "POC execution error: why"
    );
}

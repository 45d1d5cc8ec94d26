use mcp_router::config::{AppConfig, DownstreamConfig, ServerSettings};

#[test]
fn a_configuration_names_the_server_and_its_downstreams() {
    let config = AppConfig {
        server: ServerSettings { transport: "sse".to_string(), port: Some(8080) },
        downstreams: vec![
            (
                "files".to_string(),
                DownstreamConfig::Stdio {
                    command: "files-server".to_string(),
                    args: vec!["--root".to_string(), "/srv".to_string()],
                    env: vec![("LEVEL".to_string(), "info".to_string())],
                },
            ),
            ("search".to_string(), DownstreamConfig::Sse { url: "http://localhost:9000/sse".to_string() }),
        ],
    };
    assert_eq!(config.clone(), config);
    assert_eq!(config.server.port, Some(8080));
    assert_eq!(config.downstreams.len(), 2);
    assert!(matches!(config.downstreams[1].1, DownstreamConfig::Sse { .. }));
}

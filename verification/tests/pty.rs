use comet::pty_config::PtyConfig;
use comet::pty_error::{IoErrorExt, IoErrorKind, IoFailure, PtyError};

#[test]
fn test_error_constructors() {
    let err = PtyError::spawn_failed("bash", IoFailure::new(IoErrorKind::NotFound, "no such file"));
    assert!(matches!(err, PtyError::SpawnFailed { .. }));
    assert!(err.to_string().contains("bash"));

    let err = PtyError::resize_failed(80, 24, IoFailure::new(IoErrorKind::InvalidInput, "bad size"));
    assert!(matches!(err, PtyError::ResizeFailed { cols: 80, rows: 24, .. }));

    let err = PtyError::signal_failed(1234, IoFailure::new(IoErrorKind::PermissionDenied, "denied"));
    assert!(matches!(err, PtyError::SignalFailed { pid: 1234, .. }));

    let err = PtyError::create_failed("openpty failed");
    assert!(matches!(err, PtyError::CreateFailed { .. }));
}

#[test]
fn test_error_predicates() {
    let err = PtyError::ProcessExited { pid: 1, exit_code: 0 };
    assert!(err.is_process_exited());
    assert!(!err.is_temporary_io());
    assert!(!err.is_closed());

    let err = PtyError::Io { source: IoFailure::new(IoErrorKind::WouldBlock, "block") };
    assert!(err.is_temporary_io());

    let err = PtyError::Closed;
    assert!(err.is_closed());
}

#[test]
fn broken_pipe_counts_as_closed() {
    let err = IoFailure::new(IoErrorKind::BrokenPipe, "pipe").pty_context("write");
    assert!(err.is_closed());
    assert!(!err.is_temporary_io());
    let err = IoFailure::new(IoErrorKind::Interrupted, "eintr").pty_context("read");
    assert!(err.is_temporary_io());
}

#[test]
fn error_messages() {
    let err = PtyError::resize_failed(80, 24, IoFailure::new(IoErrorKind::InvalidInput, "bad size"));
    assert_eq!(err.to_string(), "Falha ao redimensionar PTY para 80x24: bad size");
    let err = PtyError::ProcessExited { pid: 42, exit_code: -9 };
    assert_eq!(err.to_string(), "Processo filho (PID 42) já terminou com código -9");
    let err = PtyError::timeout(1500, "read");
    assert_eq!(err.to_string(), "Timeout após 1500ms: read");
    assert_eq!(PtyError::Closed.to_string(), "PTY fechado inesperadamente");
    assert_eq!(PtyError::invalid_config("x").to_string(), "Configuração inválida: x");
    assert_eq!(PtyError::unsupported("fork").to_string(), "Operação não suportada: fork");
}

#[test]
fn test_config_default() {
    let config = PtyConfig::from_environment(false, None, vec![("HOME".to_string(), "/root".to_string())]);
    assert!(!config.shell.is_empty());
    assert_eq!(config.cols, 80);
    assert_eq!(config.rows, 24);
    assert!(!config.env.is_empty());
}

#[test]
fn test_config_builder() {
    let config = PtyConfig {
        shell: "bash".to_string(),
        args: vec!["-l".to_string()],
        cwd: Some("/tmp".into()),
        env: vec![("FOO".to_string(), "bar".to_string())],
        cols: 120,
        rows: 40,
    };
    assert_eq!(config.shell, "bash");
    assert_eq!(config.args, vec!["-l"]);
    assert_eq!(config.cwd, Some("/tmp".into()));
    assert_eq!(config.cols, 120);
    assert_eq!(config.rows, 40);
}

#[test]
fn default_shell_comes_from_the_environment_or_the_platform() {
    let named = PtyConfig::from_environment(false, Some("/usr/bin/fish".to_string()), vec![]);
    assert_eq!(named.shell, "/usr/bin/fish");
    assert!(named.args.is_empty());
    assert_eq!(named.cwd, None);
    assert!(named.env.is_empty());
    assert_eq!(PtyConfig::from_environment(false, None, vec![]).shell, "/bin/sh");
    assert_eq!(PtyConfig::from_environment(true, None, vec![]).shell, "cmd.exe");
}

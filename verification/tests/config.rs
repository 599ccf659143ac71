use dirsize::config::{choose_target, resolve_depth, Config, Target, DEFAULT_DEPTH};

#[test]
fn default_depth_is_five() {
    assert_eq!(DEFAULT_DEPTH, 5);
}

#[test]
fn root_takes_precedence() {
    assert_eq!(choose_target(true, true), Target::Root);
    assert_eq!(choose_target(true, false), Target::Root);
    assert_eq!(choose_target(false, true), Target::File);
    assert_eq!(choose_target(false, false), Target::Nothing);
}

#[test]
fn negative_depth_means_no_ceiling() {
    assert_eq!(resolve_depth(-1), usize::MAX);
    assert_eq!(resolve_depth(i64::MIN), usize::MAX);
}

#[test]
fn depth_is_kept_where_it_is_a_ceiling() {
    assert_eq!(resolve_depth(0), 0);
    assert_eq!(resolve_depth(5), 5);
    assert_eq!(resolve_depth(1_000_000), 1_000_000);
    assert_eq!(resolve_depth(i64::MAX), usize::try_from(i64::MAX).unwrap_or(usize::MAX));
}

#[test]
fn resolve_puts_the_configuration_together() {
    let config = Config::resolve(false, true, 5, true, false);
    assert_eq!(
        config,
        Config { target: Target::File, max_depth: 5, clean: true, reverse: false }
    );
    let unbounded = Config::resolve(true, true, -1, false, true);
    assert_eq!(
        unbounded,
        Config { target: Target::Root, max_depth: usize::MAX, clean: false, reverse: true }
    );
}

#[test]
fn default_configuration() {
    assert_eq!(
        Config::default(),
        Config { target: Target::Nothing, max_depth: 5, clean: false, reverse: false }
    );
    assert_eq!(Config::default(), Config::resolve(false, false, 5, false, false));
}

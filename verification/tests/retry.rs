use mirai::backends::WallpaperBackendError;
use mirai::retry::verdict;
use mirai::retry::Verdict;
use mirai::retry::MAX_ATTEMPTS;
use mirai::retry::RETRY_DELAY_SECONDS;

#[test]
fn the_budget_is_six_attempts_five_seconds_apart() {
    assert_eq!(MAX_ATTEMPTS, 6);
    assert_eq!(RETRY_DELAY_SECONDS, 5);
}

#[test]
fn success_ends_the_attempts_whenever_it_comes() {
    for failures in [0, 1, 5, 6, u32::MAX] {
        assert_eq!(verdict(failures, &Ok(())), Verdict::Applied);
    }
}

#[test]
fn the_first_five_failures_ask_for_a_retry() {
    for failures in 0..5 {
        assert_eq!(
            verdict(failures, &Err(WallpaperBackendError::ChangeFailure)),
            Verdict::RetryAfter(5)
        );
    }
}

#[test]
fn the_sixth_failure_is_fatal() {
    assert_eq!(verdict(5, &Err(WallpaperBackendError::ChangeFailure)), Verdict::Fatal);
    assert_eq!(verdict(6, &Err(WallpaperBackendError::ChangeFailure)), Verdict::Fatal);
    assert_eq!(verdict(u32::MAX, &Err(WallpaperBackendError::ChangeFailure)), Verdict::Fatal);
}

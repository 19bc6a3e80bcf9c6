use login_rpc::primes::is_prime;

#[test]
fn test_first_hundred_primes() {
    // List obtained from: https://en.wikipedia.org/wiki/Prime_number
    let primes: Vec<u32> = (2..100).filter(|n| is_prime(*n)).collect();
    assert_eq!(
        primes,
        [2, 3, 5, 7, 11, 13, 17, 19, 23, 29, 31, 37, 41, 43, 47, 53, 59, 61, 67, 71, 73, 79, 83, 89, 97]
    );
}

#[test]
fn small_and_large_inputs() {
    assert!(is_prime(0));
    assert!(is_prime(1));
    assert!(!is_prime(4));
    assert!(is_prime(7919));
    assert!(!is_prime(7917));
}

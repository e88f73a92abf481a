use proxy_server::precedence::Precedence;

#[test]
fn test_precedence() {
    assert!(
        Precedence {
            multi_wildcards: 0,
            wildcards: 0,
        } < Precedence {
            multi_wildcards: 0,
            wildcards: 1,
        }
    );

    assert!(
        Precedence {
            multi_wildcards: 0,
            wildcards: 1,
        } < Precedence {
            multi_wildcards: 1,
            wildcards: 0,
        }
    );

    assert!(
        Precedence {
            multi_wildcards: 1,
            wildcards: 0,
        } < Precedence {
            multi_wildcards: 1,
            wildcards: 1,
        }
    );
}

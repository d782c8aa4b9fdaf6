use capitol_backend::road_network::bfs_reaches_arterial;

#[test]
fn chain_reaches_arterial() {
    // 0 - 1 - 2, road 2 is arterial
    let graph = vec![vec![1], vec![0, 2], vec![1]];
    let arterials = vec![false, false, true];
    assert!(bfs_reaches_arterial(0, &graph, &arterials));
    assert!(bfs_reaches_arterial(2, &graph, &arterials));
}

#[test]
fn disconnected_roads_do_not_reach() {
    // 0 - 1 form a cycle of their own; 2 - 3 hold the arterial
    let graph = vec![vec![1], vec![0], vec![3], vec![2]];
    let arterials = vec![false, false, false, true];
    assert!(!bfs_reaches_arterial(0, &graph, &arterials));
    assert!(!bfs_reaches_arterial(1, &graph, &arterials));
    assert!(bfs_reaches_arterial(2, &graph, &arterials));
}

#[test]
fn one_way_connections_are_followed_forward_only() {
    let graph = vec![vec![1], vec![], vec![0]];
    let arterials = vec![true, false, false];
    assert!(!bfs_reaches_arterial(1, &graph, &arterials));
    assert!(bfs_reaches_arterial(2, &graph, &arterials));
}

#[test]
fn unlisted_roads_have_no_connections() {
    // road 2 is not listed in the graph but is an arterial neighbour of road 1
    let graph = vec![vec![1], vec![2]];
    let arterials = vec![false, false, true];
    assert!(bfs_reaches_arterial(0, &graph, &arterials));
    // an unlisted start reaches only itself
    assert!(bfs_reaches_arterial(2, &graph, &arterials));
    assert!(!bfs_reaches_arterial(5, &graph, &arterials));
    // an empty network
    assert!(!bfs_reaches_arterial(0, &Vec::new(), &Vec::new()));
}

use nru_pager::error::NruError;
use nru_pager::nru::NRU;
use nru_pager::vm::VirtualMemory;

fn classes(nru: &NRU) -> Vec<Vec<i32>> {
    (0..4).map(|k| nru.pages_in_class(k).clone()).collect()
}

#[test]
fn fresh_classifier_has_no_pages() {
    let mut nru = NRU::init();
    assert_eq!(classes(&nru), vec![Vec::<i32>::new(); 4]);
    assert_eq!(nru.get_nru_page(), Err(NruError::NoPages));
    assert_eq!(nru.pick_victim(7), Err(NruError::NoPages));
}

#[test]
fn scenario_single_modified_page() {
    let mut vm = VirtualMemory::init(4, 16).unwrap();
    vm.write(0, 1).unwrap();
    let mut nru = NRU::init();
    nru.go_through(&vm);
    assert_eq!(classes(&nru), vec![vec![1, 2, 3], vec![0], vec![], vec![]]);
    for _ in 0..20 {
        let p = nru.get_nru_page().unwrap();
        assert!(p == 1 || p == 2 || p == 3);
    }
}

#[test]
fn scenario_single_page_only_in_class_one() {
    let mut vm = VirtualMemory::init(1, 16).unwrap();
    vm.write(0, 1).unwrap();
    let mut nru = NRU::init();
    nru.go_through(&vm);
    assert_eq!(classes(&nru), vec![vec![], vec![0], vec![], vec![]]);
    assert_eq!(nru.get_nru_page(), Ok(0));
}

#[test]
fn scenario_mixed_classes() {
    let mut vm = VirtualMemory::init(4, 16).unwrap();
    vm.write(0, 1).unwrap();
    vm.read(20).unwrap();
    let mut nru = NRU::init();
    nru.go_through(&vm);
    assert_eq!(classes(&nru), vec![vec![2, 3], vec![0], vec![1], vec![]]);
    for _ in 0..50 {
        let p = nru.get_nru_page().unwrap();
        assert!(p == 2 || p == 3);
    }
    assert_eq!(classes(&nru), vec![vec![2, 3], vec![0], vec![1], vec![]]);
}

#[test]
fn victim_comes_from_lowest_class() {
    let mut vm = VirtualMemory::init(3, 4).unwrap();
    vm.write(0, 1).unwrap();
    vm.read(0).unwrap();
    vm.read(4).unwrap();
    vm.read(8).unwrap();
    vm.write(8, 2).unwrap();
    let mut nru = NRU::init();
    nru.go_through(&vm);
    assert_eq!(classes(&nru), vec![vec![], vec![], vec![1], vec![0, 2]]);
    assert_eq!(nru.get_nru_page(), Ok(1));
    assert_eq!(nru.pick_victim(0), Ok(1));
    assert_eq!(nru.pick_victim(5), Ok(1));
}

#[test]
fn pick_victim_wraps_draw() {
    let mut vm = VirtualMemory::init(5, 2).unwrap();
    vm.read(0).unwrap();
    vm.read(4).unwrap();
    let mut nru = NRU::init();
    nru.go_through(&vm);
    assert_eq!(classes(&nru), vec![vec![1, 3, 4], vec![], vec![0, 2], vec![]]);
    assert_eq!(nru.pick_victim(0), Ok(1));
    assert_eq!(nru.pick_victim(1), Ok(3));
    assert_eq!(nru.pick_victim(2), Ok(4));
    assert_eq!(nru.pick_victim(3), Ok(1));
}

#[test]
fn classification_partitions_pages() {
    let mut vm = VirtualMemory::init(10, 8).unwrap();
    vm.write(3, 1).unwrap();
    vm.read(12).unwrap();
    vm.read(40).unwrap();
    vm.write(41, 2).unwrap();
    vm.write(79, 3).unwrap();
    let mut nru = NRU::init();
    nru.go_through(&vm);
    let mut all: Vec<i32> = classes(&nru).concat();
    all.sort();
    assert_eq!(all, (0..10).collect::<Vec<i32>>());
    assert_eq!(classes(&nru), vec![vec![2, 3, 4, 6, 7, 8], vec![0, 9], vec![1], vec![5]]);
}

#[test]
fn reclassify_after_tick() {
    let mut vm = VirtualMemory::init(2, 8).unwrap();
    vm.read(0).unwrap();
    vm.write(8, 1).unwrap();
    vm.read(8).unwrap();
    let mut nru = NRU::init();
    nru.go_through(&vm);
    assert_eq!(classes(&nru), vec![vec![], vec![], vec![0], vec![1]]);
    vm.reset();
    nru.go_through(&vm);
    assert_eq!(classes(&nru), vec![vec![0], vec![1], vec![], vec![]]);
}

use hopframe::aslr::proc_maps;
use hopframe::aslr::regions::{self, MemoryRegion};
use hopframe::normalize::normalize_address;
use procfs::process::{MMapPath, Process};
use std::io::Read;

fn landmark() -> u64 {
    landmark as usize as u64
}

fn regions_of(process: &Process) -> Vec<MemoryRegion> {
    process
        .maps()
        .unwrap()
        .iter()
        .map(|map| MemoryRegion {
            start: map.address.0,
            path: match &map.pathname {
                MMapPath::Path(path) => Some(path.to_str().unwrap().to_string()),
                _ => None,
            },
        })
        .collect()
}

fn listing_of(process: &Process) -> Vec<String> {
    let mut text = String::new();
    process.open_relative("maps").unwrap().read_to_string(&mut text).unwrap();
    text.lines().map(|line| line.to_string()).collect()
}

#[test]
fn running_binary_is_found_among_its_own_regions() {
    let process = Process::myself().unwrap();
    let exe = process.exe().unwrap();
    let all = regions_of(&process);
    let offset = regions::read_aslr_offset(exe.to_str().unwrap(), &all).unwrap();
    assert_eq!(offset % 4096, 0);
    assert!(all.iter().any(|r| r.start == offset));
    let here = landmark();
    assert!(offset <= here);
    assert!(normalize_address(here, offset).unwrap() < 1 << 32);
}

#[test]
fn running_binary_is_found_in_its_own_listing() {
    let process = Process::myself().unwrap();
    let exe = process.exe().unwrap();
    let lines = listing_of(&process);
    assert!(lines.len() > 3);
    let offset = proc_maps::read_aslr_offset(exe.to_str().unwrap(), &lines).unwrap();
    assert_eq!(offset % 4096, 0);
    let here = landmark();
    assert!(offset <= here);
    assert!(normalize_address(here, offset).unwrap() < 1 << 32);
    assert_eq!(proc_maps::read_aslr_offset(exe.to_str().unwrap(), &lines), Ok(offset));
}

#[test]
fn listing_and_regions_give_the_same_offset() {
    let process = Process::myself().unwrap();
    let exe = process.exe().unwrap();
    let from_text = proc_maps::read_aslr_offset(exe.to_str().unwrap(), &listing_of(&process));
    let from_records = regions::read_aslr_offset(exe.to_str().unwrap(), &regions_of(&process));
    assert_eq!(from_text, from_records);
    assert!(from_text.is_ok());
}

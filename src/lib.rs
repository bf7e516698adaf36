//! Verified core of an HTTP directory-listing mirror: freshness decisions,
//! path exclusion, the shadow set of upstream paths, task expansion, repository
//! metadata expansion, and the deletion and exit-code policy.

mod compare;
mod exclusion;
mod extensions;
mod fancyindex;
mod listing;
mod shadow;
mod sweep;
mod task;
mod text;
mod timezone;
mod yum;

pub use compare::{
    download_by_head, download_by_list, fresh_file_stays_fresh, fresh_file_stays_fresh_by_head,
    naive_to_utc, should_download_by_head, should_download_by_list, to_instant, LocalFile,
};
pub use exclusion::{any_match, matches_any, regex_compiles, regex_group, regex_match, verdict, Comparison, ExclusionManager, InvalidPattern, Pattern};
pub use extensions::{extension_handler, extension_push_task, yum_type_of, yum_xml_type, ExtensionPackage};
pub use fancyindex::{
    get_humanized, is_white_space, trim, naive_timestamp, parse_humanized, row_item, trimmed, FancyIndexListingParser, RowError,
};
pub use listing::{FileSize, FileType, ItemView, ListItem, ListResult, SizeUnit, MAX_DECIMALS};
pub use shadow::{after_inserts, claim_is_exclusive, shadow_set_complete, ShadowSet};
pub use sweep::{
    deletion_cap, exit_code, exit_code_of, no_phantom_files, plan_sweep, planned, stray_count, SweepPlan,
};
pub use task::{
    child_tasks, choose_mtime, download_after_get, download_after_head, download_first_action,
    relative_file_path, settled, transfer, DownloadAction, HeadInfo, enter_listing, expand_listing, join_relative, joined,
    known_bytes, last_path_segment, last_segment, pool_is_quiescent, symlink_target, take_wake_ticket, temp_file_name,
    Expansion, Task, TaskType, TaskView,
};
pub use text::{file_name, file_name_of, lines_from, path_file_name, split_on};
pub use timezone::{first_file_url, listed_mtime, timezone_first_step, timezone_from_root, TimezoneStep, guess_offset, rounded_hours, timezone_from_hours, HOUR};
pub use yum::{
    captures, captures_by_line, get_locations_from_xml, location_pattern, locations_of, gunzip_text, is_yum_primary_xml, is_yum_repomd_xml,
    joined_url, packages_from_locations, parse_package, parsed_packages,
    primary_and_repomd_exclusive, read_primary_xml, read_yum_repomd_xml, utf8_lossy,
    popped_url, pushed_url, repo_base, repo_base_url, PackageView, YumError, YumPackage, YumXmlType,
};

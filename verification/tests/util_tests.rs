use filetool::config::{AppConfig, DatabaseConfig};
use filetool::errors::{
    find_number, parse_u32, process_user_registration, simulate_network_request,
    validate_user, NetworkError, RegistrationError, UserValidationError,
};
use filetool::generics::{map_vec, Cache, Container, MyResult, Pair, Point, Stack};
use filetool::parser::{Counter, NumberIterator, Parser, StringCache};
use filetool::pool::ConnectionPool;
use filetool::records::{build_user, Address, GradeBook, Library, Person, Book};
use filetool::slices::{
    bubble_sort, calculate_sum, calculate_sum_slice, double_values, find_max, find_min,
    largest,
};
use filetool::summary::{Summary, Tweet};
use filetool::validation::{
    password_strength, validate_email, validate_password, PasswordStrength,
    ValidationError,
};

#[test]
fn basic_arithmetic() {
    assert_eq!(filetool::math::add(5, 3), 8);
    assert_eq!(filetool::math::subtract(10, 4), 6);
    assert_eq!(filetool::math::multiply(6, 7), 42);
    assert_eq!(filetool::math::divide(15, 3), 5);
    assert_eq!(filetool::math::divide(-7, 2), -3);
    assert_eq!(filetool::math::divide_with_remainder(17, 5), (3, 2));
    assert_eq!(filetool::math::divide_with_remainder(-17, 5), (-3, -2));
}

#[test]
fn recursive_functions() {
    assert_eq!(filetool::math::factorial(5), 120);
    assert_eq!(filetool::math::factorial(0), 1);
    assert_eq!(filetool::math::fibonacci(10), 55);
    assert_eq!(filetool::math::fibonacci(0), 0);
    assert_eq!(filetool::math::fibonacci(1), 1);
}

#[test]
fn sign_classification() {
    assert_eq!(filetool::math::check_positive(5), "正数");
    assert_eq!(filetool::math::check_positive(-3), "负数");
    assert_eq!(filetool::math::check_positive(0), "零");
}

#[test]
fn option_increment() {
    assert_eq!(filetool::math::plus_one_regular(4), 5);
    assert_eq!(filetool::math::plus_one_option(Some(4)), Some(5));
    assert_eq!(filetool::math::plus_one_option(None), None);
}

#[test]
fn apply_operation_uses_the_function() {
    let r = filetool::math::apply_operation(10, 5, filetool::math::add);
    assert_eq!(r, 15);
    let r = filetool::math::apply_operation(10, 5, filetool::math::multiply);
    assert_eq!(r, 50);
}

#[test]
fn bubble_sort_sorts() {
    let mut v = vec![5, 2, 8, 1, 9, 3];
    bubble_sort(&mut v);
    assert_eq!(v, vec![1, 2, 3, 5, 8, 9]);
    let mut empty: Vec<i32> = Vec::new();
    bubble_sort(&mut empty);
    assert!(empty.is_empty());
}

#[test]
fn sums_and_doubling() {
    assert_eq!(calculate_sum(&vec![1, 2, 3, 4, 5]), 15);
    assert_eq!(calculate_sum_slice(&[2, 8, 1]), 11);
    let mut v = vec![1, -2, 3];
    double_values(&mut v);
    assert_eq!(v, vec![2, -4, 6]);
}

#[test]
fn extremes_of_slices() {
    assert_eq!(find_max(&[64, 34, 25, 12, 90, 11]), Some(90));
    assert_eq!(find_min(&[64, 34, 25, 12, 90, 11]), Some(11));
    assert_eq!(find_max(&[]), None);
    assert_eq!(find_min(&[]), None);
    assert_eq!(largest(&[34, 50, 25, 100, 65]), 100);
}

fn double_ref(x: &i32) -> i32 {
    x.wrapping_mul(2)
}

#[test]
fn map_vec_applies_function() {
    let v = vec![1, 2, 3];
    assert_eq!(map_vec(&v, double_ref), vec![2, 4, 6]);
}

#[test]
fn stack_is_lifo() {
    let mut s: Stack<i32> = Stack::new();
    assert!(s.is_empty());
    s.push(1);
    s.push(2);
    s.push(3);
    assert_eq!(s.size(), 3);
    assert_eq!(s.peek(), Some(&3));
    assert_eq!(s.pop(), Some(3));
    assert_eq!(s.pop(), Some(2));
    assert_eq!(s.pop(), Some(1));
    assert_eq!(s.pop(), None);
}

#[test]
fn container_keeps_items_in_order() {
    let mut c: Container<i32> = Container::new();
    c.add(42);
    c.add(100);
    c.add(25);
    assert_eq!(c.len(), 3);
    assert_eq!(c.get(1), Some(&100));
    assert_eq!(c.get(3), None);
    assert_eq!(c.get_all(), &vec![42, 100, 25]);
}

#[test]
fn pair_and_point() {
    let p = Pair::new(42, "hello");
    assert_eq!(*p.first(), 42);
    assert_eq!(*p.second(), "hello");
    assert_eq!(p.into_tuple(), (42, "hello"));
    let pt = Point::new(5, 10);
    assert_eq!(*pt.x(), 5);
    assert_eq!(*pt.y(), 10);
    assert_eq!(filetool::generics::create_point(1, "a"), (1, "a"));
}

#[test]
fn my_result_reports_kind() {
    let ok: MyResult<i32, &str> = MyResult::Success(42);
    let bad: MyResult<i32, &str> = MyResult::Failure("oops");
    assert!(ok.is_success());
    assert!(!ok.is_failure());
    assert!(bad.is_failure());
    assert!(!bad.is_success());
}

#[test]
fn cache_stores_and_removes() {
    let mut cache: Cache<i32> = Cache::new();
    cache.set(1, 42);
    cache.set(2, 100);
    assert!(cache.contains_key(&1));
    assert_eq!(cache.get(&1), Some(&42));
    assert_eq!(cache.get(&3), None);
    cache.set(1, 43);
    assert_eq!(cache.get(&1), Some(&43));
    assert_eq!(cache.remove(&1), Some(43));
    assert!(!cache.contains_key(&1));
    assert_eq!(cache.remove(&1), None);
}

#[test]
fn person_lifecycle() {
    let addr = Address {
        street: "Main St 1".to_string(),
        city: "Springfield".to_string(),
        zip_code: "12345".to_string(),
    };
    let mut p = Person::new("Ada".to_string(), 30, addr);
    p.have_birthday();
    assert_eq!(p.age, 31);
    p.move_to(Address {
        street: "Side St 2".to_string(),
        city: "Shelbyville".to_string(),
        zip_code: "54321".to_string(),
    });
    assert_eq!(p.address.city, "Shelbyville");
    assert_eq!(p.name, "Ada");
}

#[test]
fn library_finds_books_by_title() {
    let mut lib = Library::new("Central".to_string());
    lib.add_book(Book {
        title: "Verified Software".to_string(),
        author: "N. N.".to_string(),
        isbn: "1".to_string(),
    });
    lib.add_book(Book {
        title: "Systems".to_string(),
        author: "M. M.".to_string(),
        isbn: "2".to_string(),
    });
    assert_eq!(lib.book_count(), 2);
    let found = lib.find_book("Systems");
    assert!(found.is_some());
    assert_eq!(found.unwrap().author, "M. M.");
    assert!(lib.find_book("Missing").is_none());
}

#[test]
fn build_user_sets_defaults() {
    let u = build_user("a@b.c".to_string(), "ada".to_string());
    assert!(u.active);
    assert_eq!(u.sign_in_count, 1);
    assert_eq!(u.username, "ada");
}

#[test]
fn grade_book_tracks_grades() {
    let mut gb = GradeBook::new();
    gb.add_student("Ada".to_string());
    gb.add_student("Bob".to_string());
    gb.add_student("Ada".to_string());
    assert_eq!(gb.students.len(), 2);
    assert!(gb.has_student("Ada"));
    assert!(!gb.has_student("Eve"));
    gb.add_grade("Ada", 85);
    gb.add_grade("Ada", 92);
    gb.add_grade("Eve", 50);
    assert_eq!(gb.grades[0], vec![85, 92]);
    assert_eq!(gb.grades[1], Vec::<i32>::new());
}

#[test]
fn parser_reads_key_value_pairs() {
    let mut p = Parser::new("a=1,b=2,c=3");
    let kv = p.next_key_value().unwrap();
    assert_eq!(kv.key, "a");
    assert_eq!(kv.value, "1");
    let kv = p.next_key_value().unwrap();
    assert_eq!(kv.key, "b");
    assert_eq!(kv.value, "2");
    let kv = p.next_key_value().unwrap();
    assert_eq!(kv.key, "c");
    assert_eq!(kv.value, "3");
    assert!(p.next_key_value().is_none());
}

#[test]
fn parser_stops_without_equals() {
    let mut p = Parser::new("novalue");
    assert!(p.next_key_value().is_none());
}

#[test]
fn string_cache_reads_entries() {
    let data = vec!["one".to_string(), "two".to_string()];
    let cache = StringCache::new(&data);
    assert_eq!(cache.len(), 2);
    assert_eq!(cache.get(0), Some("one"));
    assert_eq!(cache.get(2), None);
}

#[test]
fn number_iterator_walks_the_slice() {
    let data = [1, 2, 3];
    let mut it = NumberIterator::new(&data);
    assert_eq!(it.next(), Some(&1));
    assert_eq!(it.next(), Some(&2));
    assert_eq!(it.next(), Some(&3));
    assert_eq!(it.next(), None);
}

#[test]
fn counter_counts_to_five() {
    let mut c = Counter::new();
    let mut seen = Vec::new();
    while let Some(v) = c.next() {
        seen.push(v);
    }
    assert_eq!(seen, vec![1, 2, 3, 4, 5]);
    assert_eq!(c.next(), None);
}

#[test]
fn excerpt_level_is_three() {
    let e = filetool::parser::ImportantExcerpt { part: "call me" };
    assert_eq!(e.level(), 3);
    assert_eq!(e.part, "call me");
}

#[test]
fn validate_user_checks_name_and_age() {
    assert_eq!(validate_user("", 30), Err(UserValidationError::EmptyName));
    assert_eq!(validate_user("Ada", 17), Err(UserValidationError::TooYoung));
    let u = validate_user("Ada", 30).unwrap();
    assert_eq!(u.name, "Ada");
    assert_eq!(u.age, 30);
}

#[test]
fn find_number_finds_targets() {
    assert_eq!(find_number(&[1, 2, 3], 2), Some(2));
    assert_eq!(find_number(&[1, 2, 3], 7), None);
}

#[test]
fn parse_u32_accepts_decimal_strings() {
    assert_eq!(parse_u32("0"), Some(0));
    assert_eq!(parse_u32("25"), Some(25));
    assert_eq!(parse_u32("+25"), Some(25));
    assert_eq!(parse_u32("4294967295"), Some(u32::MAX));
    assert_eq!(parse_u32("4294967296"), None);
    assert_eq!(parse_u32(""), None);
    assert_eq!(parse_u32("+"), None);
    assert_eq!(parse_u32("12x"), None);
    assert_eq!(parse_u32("-5"), None);
}

#[test]
fn registration_checks_in_order() {
    assert_eq!(
        process_user_registration("Ada", "abc", "a@b.c"),
        Err(RegistrationError::InvalidAge)
    );
    assert_eq!(
        process_user_registration("Ada", "17", "a@b.c"),
        Err(RegistrationError::UserTooYoung)
    );
    assert_eq!(
        process_user_registration("Ada", "30", "nodots"),
        Err(RegistrationError::InvalidEmail)
    );
    let u = process_user_registration("Ada", "30", "a@b.c").unwrap();
    assert_eq!(u.age, 30);
    assert_eq!(u.email, "a@b.c");
}

#[test]
fn network_request_simulation() {
    assert_eq!(
        simulate_network_request("http://plain.example"),
        Err(NetworkError::InvalidUrl)
    );
    assert_eq!(
        simulate_network_request("https://api.example.com/invalid"),
        Err(NetworkError::ConnectionTimeout)
    );
    assert_eq!(
        simulate_network_request("https://api.example.com/posts"),
        Err(NetworkError::ServerError(500))
    );
    assert_eq!(
        simulate_network_request("https://api.example.com/users"),
        Ok("请求成功".to_string())
    );
}

#[test]
fn email_validation() {
    assert_eq!(validate_email("user@example.com"), Ok("user@example.com"));
    assert_eq!(validate_email("invalid-email"), Err(ValidationError::InvalidEmail));
    assert_eq!(validate_email("missing@dot"), Err(ValidationError::InvalidEmail));
}

#[test]
fn password_validation() {
    assert!(validate_password("StrongPass123!").is_ok());
    assert_eq!(validate_password("weak"), Err(ValidationError::WeakPassword));
    assert_eq!(validate_password("alllowercase1"), Err(ValidationError::WeakPassword));
    assert_eq!(validate_password("ALLUPPER123"), Err(ValidationError::WeakPassword));
    assert_eq!(validate_password("NoDigitsHere"), Err(ValidationError::WeakPassword));
}

#[test]
fn password_grading() {
    assert_eq!(password_strength("Abcdef1!"), PasswordStrength::Strong);
    assert_eq!(password_strength("abcdef12"), PasswordStrength::Medium);
    assert_eq!(password_strength("short"), PasswordStrength::Weak);
    assert_eq!(password_strength("ABCDEF12"), PasswordStrength::Weak);
}

#[test]
fn validation_error_messages() {
    assert_eq!(ValidationError::InvalidEmail.message(), "邮箱格式无效");
    assert_eq!(ValidationError::WeakPassword.message(), "密码强度不够");
}

#[test]
fn tweet_summary() {
    let t = Tweet {
        username: "ada".to_string(),
        content: "verified!".to_string(),
        reply: false,
        retweet: false,
    };
    assert_eq!(t.summarize(), "ada: verified!");
    assert_eq!(t.author_info(), "(作者信息未知)");
}

#[test]
fn app_config_defaults() {
    let c = AppConfig::new();
    assert_eq!(c.app_name, "Rust学习应用");
    assert_eq!(c.version, "1.0.0");
    assert!(c.debug);
    let db = DatabaseConfig::default();
    assert_eq!(db.host, "localhost");
    assert_eq!(db.port, 5432);
    assert_eq!(db.database, "myapp");
    assert_eq!(db.username, "user");
}

#[test]
fn connection_pool_lends_and_takes_back() {
    let mut pool = ConnectionPool::new(2);
    let c1 = pool.get_connection().unwrap();
    assert_eq!(c1.id, 2);
    let c2 = pool.get_connection().unwrap();
    assert_eq!(c2.id, 1);
    assert!(pool.get_connection().is_none());
    pool.return_connection(c2);
    let c3 = pool.get_connection().unwrap();
    assert_eq!(c3.id, 1);
}

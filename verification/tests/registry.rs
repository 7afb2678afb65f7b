use vulntrix::ecosystem::Ecosystem;

#[test]
fn every_tag_parses_to_its_wire_name() {
    let table = [
        ("crates-io", "crates.io"),
        ("pypi", "PyPI"),
        ("npm", "npm"),
        ("rubygems", "RubyGems"),
        ("maven", "Maven"),
        ("packagist", "Packagist"),
        ("go", "Go"),
        ("nuget", "NuGet"),
        ("pub", "Pub"),
    ];
    for (tag, wire) in table {
        let eco = Ecosystem::parse_tag(tag).expect(tag);
        assert_eq!(eco.as_str(), wire);
    }
}

#[test]
fn unknown_tags_are_rejected() {
    assert!(Ecosystem::parse_tag("cargo").is_none());
    assert!(Ecosystem::parse_tag("").is_none());
    assert!(Ecosystem::parse_tag("PyPI").is_none());
    assert!(Ecosystem::parse_tag("crates.io").is_none());
}

use docker_manifest::{sanitize_filename, tarball_path, Image, ManifestError, ReferenceParts};

fn image(image: &str, repository: &str, tag: &str, tarball: &str) -> Image {
    Image {
        image: image.to_string(),
        repository: repository.to_string(),
        tag: tag.to_string(),
        tarball: tarball.to_string(),
    }
}

#[test]
fn image_parsed_without_tag_returns_latest() {
    let image_name = "hello-world";
    let parsed = Image::parse_image(image_name);
    let expected_parsed = image(
        "hello-world",
        "hello-world",
        "latest",
        "images/hello-world.tar.gz",
    );

    assert_eq!(Ok(expected_parsed), parsed);
}

#[test]
fn image_parsed_with_tag() {
    let image_name = "ubuntu:16.04";
    let parsed = Image::parse_image(image_name);
    let expected_parsed = image("ubuntu:16.04", "ubuntu", "16.04", "images/ubuntu_16.04.tar.gz");

    assert_eq!(Ok(expected_parsed), parsed);
}

#[test]
fn untagged_names_get_latest() {
    for name in ["nginx", "library/nginx", "my-app_2.x"] {
        let parsed = Image::parse_image(name).unwrap();
        assert_eq!(parsed.tag, "latest");
        assert_eq!(parsed.repository, name);
    }
}

#[test]
fn repo_and_tag_are_split_at_the_colon() {
    let parsed = Image::parse_image("library/redis:7.2-alpine").unwrap();
    assert_eq!(parsed.repository, "library/redis");
    assert_eq!(parsed.tag, "7.2-alpine");
    assert_eq!(parsed.tarball, "images/library_redis_7.2-alpine.tar.gz");
}

#[test]
fn registry_is_part_of_the_repository() {
    let parsed = Image::parse_image("docker.io/library/nginx:1.25").unwrap();
    assert_eq!(parsed.repository, "docker.io/library/nginx");
    assert_eq!(parsed.tag, "1.25");
    assert_eq!(parsed.tarball, "images/docker.io_library_nginx_1.25.tar.gz");
}

#[test]
fn malformed_references_are_refused() {
    for name in ["nginx::latest", ":latest", "Ubuntu", "my-image:1.0.0:latest", ""] {
        assert_eq!(
            Image::parse_image(name),
            Err(ManifestError::Parse(name.to_string()))
        );
    }
}

#[test]
fn sanitize_keeps_allowed_characters() {
    assert_eq!(sanitize_filename("Abc-09_x.y"), "Abc-09_x.y");
    assert_eq!(sanitize_filename(""), "");
}

#[test]
fn sanitize_replaces_each_disallowed_character() {
    assert_eq!(sanitize_filename("a/b:c@d e"), "a_b_c_d_e");
    assert_eq!(sanitize_filename("ü€"), "__");
    assert_eq!(sanitize_filename("::"), "__");
}

#[test]
fn tarball_paths() {
    assert_eq!(tarball_path("ubuntu:16.04"), "images/ubuntu_16.04.tar.gz");
    assert_eq!(tarball_path("hello-world"), "images/hello-world.tar.gz");
    assert_eq!(tarball_path(""), "images/.tar.gz");
}

#[test]
fn image_from_given_parts() {
    let parts = ReferenceParts {
        registry: Some("ghcr.io".to_string()),
        name: "org/tool".to_string(),
        tag: None,
        digest: None,
    };
    assert_eq!(
        Image::from_reference("ghcr.io/org/tool", parts),
        image("ghcr.io/org/tool", "ghcr.io/org/tool", "latest", "images/ghcr.io_org_tool.tar.gz")
    );
    let parts = ReferenceParts {
        registry: None,
        name: "ubuntu".to_string(),
        tag: Some("16.04".to_string()),
        digest: None,
    };
    assert_eq!(
        Image::from_reference("ubuntu:16.04", parts),
        image("ubuntu:16.04", "ubuntu", "16.04", "images/ubuntu_16.04.tar.gz")
    );
}

#[test]
fn digest_reference_without_tag() {
    let reference =
        "ubuntu@sha256:45b23dee08af5e43a7fea6c4cf9c25ccf269ee113168c19722f87876677c5cb2";
    let parsed = Image::parse_image(reference).unwrap();
    assert_eq!(parsed.repository, "ubuntu");
    assert_eq!(parsed.tag, "latest");
    assert_eq!(
        parsed.tarball,
        "images/ubuntu_sha256_45b23dee08af5e43a7fea6c4cf9c25ccf269ee113168c19722f87876677c5cb2.tar.gz"
    );
}

#[test]
fn registry_with_port_keeps_its_port() {
    let parsed = Image::parse_image("my-registry.local:5000/library/app:v1").unwrap();
    assert_eq!(parsed.repository, "my-registry.local:5000/library/app");
    assert_eq!(parsed.tag, "v1");
    assert_eq!(parsed.tarball, "images/my-registry.local_5000_library_app_v1.tar.gz");
    let parts = ReferenceParts {
        registry: Some("localhost:5000".to_string()),
        name: "foo".to_string(),
        tag: None,
        digest: None,
    };
    assert_eq!(
        Image::from_reference("localhost:5000/foo", parts).repository,
        "localhost:5000/foo"
    );
}
